use slanderbar::context::{coerce, resolve};
use slanderbar::engine::compose;
use slanderbar::{compile, CompileError, Context};

fn text(s: &str) -> Context {
    Context::Scalar(s.to_string())
}

fn object(entries: Vec<(&str, Context)>) -> Context {
    Context::Object(entries.into_iter().map(|(k, v)| (k.to_string(), v)).collect())
}

fn sample() -> Context {
    object(vec![
        ("world", text("World")),
        ("process", object(vec![("os", text("Mr. Whatever"))])),
    ])
}

#[test]
fn should_parse_simple_string() {
    let obj = sample();

    let result = compile(r#"Hello, {{ world }}! My name is {{ process.os }}"#, &obj).unwrap();

    assert_eq!(
        result,
        String::from("Hello, World! My name is Mr. Whatever")
    );
}

#[test]
fn should_fail_parsing_some_variables() {
    let obj = sample();

    let result = compile(r#"Hello, {{ world }}! My name is {{ process.nos }}"#, &obj).unwrap();

    assert_eq!(result, String::from("Hello, World! My name is "));
}

#[test]
fn should_parse_long_text() {
    let paragraph = "
        Lorem ipsum dolor sit KEY,
        consectetur adipiscing elit,
        sed do eiusmod tempor incididunt ut labore et dolore magna aliqua.
        Ut enim ad minim veniam, quis nostrud exercitation ullamco laboris nisi ut aliquip ex ea commodo consequat.
        Duis aute irure dolor in reprehenderit in voluptate velit esse cillum dolore eu fugiat nulla pariatur.
        Excepteur sint occaecat cupidatat non proident, sunt in culpa qui officia deserunt mollit anim id est laborum.";
    let expected = format!("{}\n    ", paragraph.replace("KEY", "amet").repeat(5));
    let text = format!("{}\n    ", paragraph.replace("KEY", "{{ key }}").repeat(5));

    let obj = object(vec![("key", Context::Scalar("amet".to_string()))]);

    let result = compile(&text, &obj).unwrap();

    assert_eq!(result, expected)
}

#[test]
fn compiles_a_single_placeholder() {
    let obj = object(vec![("world", text("World"))]);
    assert_eq!(compile("Hello, {{ world }}!", &obj), Ok("Hello, World!".to_string()));
}

#[test]
fn template_without_placeholders_is_unchanged() {
    let obj = sample();
    for template in ["", "plain text", "a {{ dangling", "}} not open", "{ single } braces"] {
        assert_eq!(compile(template, &obj), Ok(template.to_string()));
    }
    assert_eq!(compile("plain text", &object(vec![])), Ok("plain text".to_string()));
}

#[test]
fn missing_key_at_any_position_is_empty() {
    let obj = object(vec![(
        "a",
        object(vec![("b", object(vec![("c", text("leaf"))]))]),
    )]);
    assert_eq!(compile("[{{ a.b.c }}]", &obj), Ok("[leaf]".to_string()));
    assert_eq!(compile("[{{ x.b.c }}]", &obj), Ok("[]".to_string()));
    assert_eq!(compile("[{{ a.x.c }}]", &obj), Ok("[]".to_string()));
    assert_eq!(compile("[{{ a.b.x }}]", &obj), Ok("[]".to_string()));
    assert_eq!(compile("[{{ a.b.c.x }}]", &obj), Ok("[]".to_string()));
    assert_eq!(compile("[{{ a.b.c.x.y }}]", &obj), Ok("[]".to_string()));
}

#[test]
fn objects_and_nulls_are_written_as_nothing() {
    let obj = object(vec![
        ("nothing", Context::Null),
        ("nested", object(vec![("k", text("v"))])),
    ]);
    assert_eq!(compile("<{{ nothing }}>", &obj), Ok("<>".to_string()));
    assert_eq!(compile("<{{ nothing.k }}>", &obj), Ok("<>".to_string()));
    assert_eq!(compile("<{{ nested }}>", &obj), Ok("<>".to_string()));
    assert_eq!(compile("<{{ nested.k }}>", &obj), Ok("<v>".to_string()));
}

#[test]
fn empty_path_names_the_context_itself() {
    assert_eq!(compile("<{{}}>", &sample()), Ok("<>".to_string()));
    assert_eq!(compile("<{{   }}>", &sample()), Ok("<>".to_string()));
}

#[test]
fn context_that_is_no_object_is_an_error() {
    assert_eq!(compile("{{ a }}", &Context::Null), Err(CompileError::ContextType));
    assert_eq!(compile("{{ a }}", &text("a")), Err(CompileError::ContextType));
    assert_eq!(compile("no placeholder", &Context::Null), Err(CompileError::ContextType));
    assert_eq!(compile("", &text("")), Err(CompileError::ContextType));
}

#[test]
fn error_has_a_message() {
    assert_eq!(CompileError::ContextType.message(), "the context is not an object");
}

#[test]
fn bracketed_and_quoted_keys_are_looked_up() {
    let obj = object(vec![
        ("a key", object(vec![("0", text("zero"))])),
        ("", text("blank")),
        ("wei[rdo", text("odd")),
    ]);
    assert_eq!(compile("{{ ['a key'].[ \"0\" ] }}", &obj), Ok("zero".to_string()));
    assert_eq!(compile("{{ [] }}", &obj), Ok("blank".to_string()));
    assert_eq!(compile("{{ wei[rdo }}", &obj), Ok("odd".to_string()));
}

#[test]
fn first_of_two_entries_with_one_name_counts() {
    let obj = object(vec![("k", text("first")), ("k", text("second"))]);
    assert_eq!(compile("{{ k }}", &obj), Ok("first".to_string()));
}

#[test]
fn lookup_compares_whole_names() {
    let obj = object(vec![("ab", text("long")), ("a", text("short")), ("b", text("other"))]);
    assert_eq!(compile("{{ a }}|{{ b }}|{{ ab }}|{{ A }}", &obj), Ok("short|other|long|".to_string()));
}

#[test]
fn get_finds_a_child_by_name() {
    let obj = sample();
    assert_eq!(obj.get("world"), Some(&text("World")));
    assert_eq!(obj.get("missing"), None);
    assert_eq!(text("World").get("world"), None);
    assert_eq!(Context::Null.get("world"), None);
}

#[test]
fn resolve_walks_keys_in_order() {
    let obj = sample();
    assert_eq!(resolve(&obj, &vec![]), Some(&obj));
    assert_eq!(resolve(&obj, &vec!["world"]), Some(&text("World")));
    assert_eq!(resolve(&obj, &vec!["process", "os"]), Some(&text("Mr. Whatever")));
    assert_eq!(resolve(&obj, &vec!["os", "process"]), None);
    assert_eq!(resolve(&obj, &vec!["world", "os"]), None);
    assert_eq!(resolve(&text("t"), &vec![]), Some(&text("t")));
}

#[test]
fn coerce_writes_only_scalars() {
    assert_eq!(coerce(Some(&text("abc"))), "abc");
    assert_eq!(coerce(Some(&Context::Null)), "");
    assert_eq!(coerce(Some(&sample())), "");
    assert_eq!(coerce(None), "");
}

#[test]
fn compose_alternates_literals_and_values() {
    assert_eq!(compose(&vec!["only"], &vec![]), "only");
    assert_eq!(compose(&vec!["a", "c"], &vec!["b"]), "abc");
    assert_eq!(compose(&vec!["a", "c", "e"], &vec!["b", "d"]), "abcde");
    assert_eq!(compose(&vec!["", "", ""], &vec!["x", "y"]), "xy");
    assert_eq!(compose(&vec!["<", "|", ">"], &vec!["", ""]), "<|>");
}

#[test]
fn values_are_not_scanned_again() {
    let obj = object(vec![("a", text("{{ b }}")), ("b", text("B"))]);
    assert_eq!(compile("{{ a }}", &obj), Ok("{{ b }}".to_string()));
}

#[test]
fn compiles_text_beyond_ascii() {
    let obj = object(vec![("cl\u{e9}", text("\u{1f600}"))]);
    assert_eq!(compile("\u{e9}: {{ cl\u{e9} }}!", &obj), Ok("\u{e9}: \u{1f600}!".to_string()));
}
