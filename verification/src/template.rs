//! The template scanner: splits a template into the literal texts and the
//! variable paths of its placeholders.

use vstd::prelude::*;
use crate::delimit::delimited;
use crate::primitives::{take_until, trim};
use crate::text::{
    enclosure, first_occurrence, lemma_first_occurrence_found, lemma_first_occurrence_none,
    occurs_in, trimmed,
};

verus! {

/// The marker that opens a placeholder.
pub open spec fn opening() -> Seq<char> {
    seq!['{', '{']
}

/// The marker that closes a placeholder.
pub open spec fn closing() -> Seq<char> {
    seq!['}', '}']
}

/// What a template is made of: its literal texts, and between each two of
/// them the path named by one placeholder.
pub struct Segments {
    pub literals: Seq<Seq<char>>,
    pub variables: Seq<Seq<char>>,
}

impl Segments {
    /// A template that is one literal text and no placeholder.
    pub open spec fn plain(text: Seq<char>) -> Segments {
        Segments { literals: seq![text], variables: seq![] }
    }

    /// These segments behind one more literal and one more variable.
    pub open spec fn after(self, literal: Seq<char>, variable: Seq<char>) -> Segments {
        Segments {
            literals: seq![literal] + self.literals,
            variables: seq![variable] + self.variables,
        }
    }

    /// There is one literal more than there are variables.
    pub open spec fn balanced(self) -> bool {
        self.literals.len() == self.variables.len() + 1
    }
}

/// The segments of `text`. The leftmost `{{` that has a `}}` after it opens
/// a placeholder: the text in front of it is a literal, the trimmed text up
/// to the leftmost such `}}` is a variable, and scanning goes on behind that
/// `}}`. Text with no such `{{` is one literal, unmatched `{{` included.
pub open spec fn scan(text: Seq<char>) -> Segments
    decreases text.len(),
{
    match first_occurrence(text, opening()) {
        Some(start) => match enclosure(text.skip(start), opening(), closing()) {
            Some((inner, rest)) => scan(rest).after(text.take(start), trimmed(inner)),
            None => Segments::plain(text),
        },
        None => Segments::plain(text),
    }
}

/// A scanned template. The slices borrow from the template text.
#[derive(Debug)]
pub struct TaggedTemplate<'a> {
    pub literals: Vec<&'a str>,
    pub variables: Vec<&'a str>,
}

impl<'a> View for TaggedTemplate<'a> {
    type V = Segments;

    open spec fn view(&self) -> Segments {
        Segments {
            literals: self.literals.deep_view(),
            variables: self.variables.deep_view(),
        }
    }
}

impl<'a> TaggedTemplate<'a> {
    /// A template with no segments yet.
    pub fn new() -> (r: Self)
        ensures
            r@.literals == Seq::<Seq<char>>::empty(),
            r@.variables == Seq::<Seq<char>>::empty(),
    {
        Self { literals: Vec::new(), variables: Vec::new() }
    }

    /// Scans `text` into its segments.
    pub fn scan(text: &'a str) -> (r: Self)
        ensures
            r@ == scan(text@),
            r@.balanced(),
    {
        let mut template = TaggedTemplate::new();
        let mut next_part = text;
        loop
            invariant
                scan(text@).literals == template@.literals + scan(next_part@).literals,
                scan(text@).variables == template@.variables + scan(next_part@).variables,
                template@.literals.len() == template@.variables.len(),
            decreases next_part@.len(),
        {
            proof {
                reveal_strlit("{{");
                reveal_strlit("}}");
                assert("{{"@ =~= opening());
                assert("}}"@ =~= closing());
            }
            let ghost current = next_part@;
            match take_until("{{", next_part) {
                Ok((at_open, found)) => {
                    proof {
                        lemma_first_occurrence_found(current, opening(), found@.len() as int);
                        assert(at_open@ =~= current.skip(found@.len() as int));
                        assert(found@ =~= current.take(found@.len() as int));
                    }
                    match delimited("{{", "}}", at_open) {
                        Some((rest, inner)) => {
                            let variable = trim(inner);
                            template.literals.push(found);
                            template.variables.push(variable);
                            next_part = rest;
                            assert(scan(current) == scan(rest@).after(found@, variable@));
                        },
                        None => {
                            template.literals.push(next_part);
                            assert(scan(current) == Segments::plain(current));
                            assert(scan(text@).literals =~= template@.literals);
                            return template;
                        },
                    }
                },
                Err(_) => {
                    template.literals.push(next_part);
                    proof {
                        lemma_first_occurrence_none(current, opening());
                        assert(scan(current) == Segments::plain(current));
                        assert(scan(text@).literals =~= template@.literals);
                    }
                    return template;
                },
            }
        }
    }
}

/// Scans `text` as [`TaggedTemplate::scan`] does. Scanning consumes the whole
/// text and cannot fail: the result is always `Ok`, and the unparsed rest in
/// it is empty.
pub fn parser<'a>(text: &'a str) -> (r: Result<
    (&'a str, TaggedTemplate<'a>),
    nom::Err<nom::error::Error<&'a str>>,
>)
    ensures
        r matches Ok((rest, template)) && rest@.len() == 0 && template@ == scan(text@)
            && template@.balanced(),
{
    proof {
        reveal_strlit("");
    }
    Ok(("", TaggedTemplate::scan(text)))
}

/// Scanning always yields one literal more than it yields variables.
pub proof fn lemma_scan_balanced(text: Seq<char>)
    ensures
        scan(text).balanced(),
    decreases text.len(),
{
    if let Some(start) = first_occurrence(text, opening()) {
        if let Some((inner, rest)) = enclosure(text.skip(start), opening(), closing()) {
            lemma_scan_balanced(rest);
        }
    }
}

/// A template in which scanning finds no variable is a single literal: the
/// template text itself.
pub proof fn lemma_scan_without_variables(text: Seq<char>)
    requires
        scan(text).variables.len() == 0,
    ensures
        scan(text) == Segments::plain(text),
{
}

/// A template in which `{{` does not occur is a single literal.
pub proof fn lemma_scan_without_opening(text: Seq<char>)
    requires
        !occurs_in(text, opening()),
    ensures
        scan(text) == Segments::plain(text),
{
    lemma_first_occurrence_none(text, opening());
}

} // verus!
