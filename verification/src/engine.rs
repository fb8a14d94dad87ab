//! The engine: resolves every placeholder of a template against a context
//! and writes the result out.

use vstd::prelude::*;
use vstd::string::StringExecFns;
use crate::context::{coerce, lemma_miss_ends_walk, resolve, text_of, Context, Node};
use crate::keypath::{key_parser, parse_path};
use crate::template::{lemma_scan_without_variables, scan, TaggedTemplate};

verus! {

/// The one way compiling fails.
#[derive(Debug, Clone, Copy, PartialEq, Eq, Structural)]
pub enum CompileError {
    /// The context is not an object, so nothing can be looked up in it.
    ContextType,
}

impl CompileError {
    /// A sentence that names the failure.
    pub fn message(&self) -> (r: String)
        ensures
            r@ == "the context is not an object"@,
    {
        String::from_str("the context is not an object")
    }
}

/// `literals[0] + values[0] + literals[1] + values[1] + … + literals[n]`,
/// where `n` is the number of values.
pub open spec fn interleave(literals: Seq<Seq<char>>, values: Seq<Seq<char>>) -> Seq<char>
    recommends
        literals.len() == values.len() + 1,
    decreases values.len(),
{
    if values.len() == 0 {
        literals.first()
    } else {
        literals.first() + values.first() + interleave(literals.drop_first(), values.drop_first())
    }
}

/// The text that the placeholder `path` is replaced by: the text of the value
/// that its keys lead to in `context`.
pub open spec fn resolved(context: Node, path: Seq<char>) -> Seq<char> {
    text_of(context.walk(parse_path(path)))
}

/// The texts that the placeholders of `template` are replaced by, in order.
pub open spec fn replacements(template: Seq<char>, context: Node) -> Seq<Seq<char>> {
    scan(template).variables.map_values(|path: Seq<char>| resolved(context, path))
}

/// `template` with every placeholder replaced by its text.
pub open spec fn render(template: Seq<char>, context: Node) -> Seq<char> {
    interleave(scan(template).literals, replacements(template, context))
}

/// What compiling `template` against `context` gives: the rendered text
/// where the context is an object, and an error where it is not.
pub open spec fn compiled(template: Seq<char>, context: Node) -> Result<Seq<char>, CompileError> {
    if context is Object {
        Ok(render(template, context))
    } else {
        Err(CompileError::ContextType)
    }
}

/// A key that is not found, at whatever position of a path, leaves the
/// placeholder's text empty.
pub proof fn lemma_missing_key_resolves_empty(context: Node, path: Seq<char>, position: int)
    requires
        context.misses_at(parse_path(path), position),
    ensures
        resolved(context, path) == Seq::<char>::empty(),
{
    lemma_miss_ends_walk(context, parse_path(path), position);
}

/// A placeholder with a key that is not found, at whatever position of its
/// path, is replaced by the empty text, and compiling succeeds all the same.
pub proof fn lemma_missing_key_compiles_empty(
    template: Seq<char>,
    context: Node,
    variable: int,
    position: int,
)
    requires
        context is Object,
        0 <= variable < scan(template).variables.len(),
        context.misses_at(parse_path(scan(template).variables[variable]), position),
    ensures
        replacements(template, context)[variable] == Seq::<char>::empty(),
        compiled(template, context) == Ok::<Seq<char>, CompileError>(
            interleave(scan(template).literals, replacements(template, context)),
        ),
{
    lemma_missing_key_resolves_empty(context, scan(template).variables[variable], position);
}

/// A template without placeholders compiles to itself.
pub proof fn lemma_plain_template_unchanged(template: Seq<char>, context: Node)
    requires
        context is Object,
        scan(template).variables.len() == 0,
    ensures
        compiled(template, context) == Ok::<Seq<char>, CompileError>(template),
{
    lemma_scan_without_variables(template);
}

/// Joins literals and values, alternating, into one text.
pub fn compose(literals: &Vec<&str>, values: &Vec<&str>) -> (out: String)
    requires
        literals.len() == values.len() + 1,
    ensures
        out@ == interleave(literals.deep_view(), values.deep_view()),
{
    let ghost all_literals = literals.deep_view();
    let ghost all_values = values.deep_view();
    let mut out = String::new();
    let mut i: usize = 0;
    assert(all_literals.skip(0) =~= all_literals);
    assert(all_values.skip(0) =~= all_values);
    while i < values.len()
        invariant
            i <= values.len(),
            literals.len() == values.len() + 1,
            all_literals == literals.deep_view(),
            all_values == values.deep_view(),
            interleave(all_literals, all_values) == out@ + interleave(
                all_literals.skip(i as int),
                all_values.skip(i as int),
            ),
        decreases values.len() - i,
    {
        assert(all_literals.skip(i as int).drop_first() =~= all_literals.skip(i + 1));
        assert(all_values.skip(i as int).drop_first() =~= all_values.skip(i + 1));
        out.append(literals[i]);
        out.append(values[i]);
        i += 1;
    }
    out.append(literals[i]);
    out
}

/// Compiles `x`: every `{{ path }}` in it is replaced by the text of the value
/// that the path leads to in `ctx`, and by nothing where it leads to none.
pub fn compile(x: &str, ctx: &Context) -> (r: Result<String, CompileError>)
    ensures
        match r {
            Ok(out) => compiled(x@, ctx@) == Ok::<Seq<char>, CompileError>(out@),
            Err(e) => compiled(x@, ctx@) == Err::<Seq<char>, CompileError>(e),
        },
{
    match ctx {
        Context::Object(_) => {},
        _ => {
            return Err(CompileError::ContextType);
        },
    }
    let template = TaggedTemplate::scan(x);
    let mut resolved_variables: Vec<&str> = Vec::new();
    let mut i: usize = 0;
    while i < template.variables.len()
        invariant
            i <= template.variables.len(),
            template@ == scan(x@),
            resolved_variables.deep_view() == replacements(x@, ctx@).take(i as int),
        decreases template.variables.len() - i,
    {
        let real_keys = key_parser(template.variables[i]);
        let value = coerce(resolve(ctx, &real_keys));
        resolved_variables.push(value);
        assert(replacements(x@, ctx@).take(i + 1) =~= replacements(x@, ctx@).take(i as int).push(
            value@,
        ));
        i += 1;
    }
    assert(resolved_variables.deep_view() =~= replacements(x@, ctx@));
    Ok(compose(&template.literals, &resolved_variables))
}

} // verus!
