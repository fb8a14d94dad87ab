//! The key-path parser: decomposes a dotted variable path into the keys that
//! are looked up, one after the other.

use vstd::prelude::*;
use vstd::string::StrSliceExecFns;
use crate::delimit::delimited;
use crate::primitives::{tag, take_until, trim};
use crate::text::{
    enclosure, first_occurrence, lemma_first_occurrence_found, lemma_first_occurrence_none,
    trimmed,
};

verus! {

/// The separator between the segments of a path.
pub open spec fn dot() -> Seq<char> {
    seq!['.']
}

/// The bracket that opens a bracketed segment.
pub open spec fn left_bracket() -> Seq<char> {
    seq!['[']
}

/// The bracket that closes a bracketed segment.
pub open spec fn right_bracket() -> Seq<char> {
    seq![']']
}

/// The raw segments of `path`: the texts between its dots. Two dots in a row,
/// or a dot at either end, give an empty segment.
pub open spec fn segments(path: Seq<char>) -> Seq<Seq<char>>
    decreases path.len(),
{
    match first_occurrence(path, dot()) {
        Some(n) => seq![path.take(n)] + segments(path.skip(n + 1)),
        None => seq![path],
    }
}

/// `key` without the pair of equal quote characters around it, if it has one.
pub open spec fn unquoted(key: Seq<char>) -> Seq<char> {
    if key.len() >= 2 && key.first() == key.last() && (key.first() == '"' || key.first() == '\'') {
        key.subrange(1, key.len() - 1)
    } else {
        key
    }
}

/// The key that a raw segment stands for. A trimmed segment that begins with
/// `[` and holds a `]` stands for the text between the `[` and the leftmost
/// `]`, trimmed and unquoted; any other stands for itself, trimmed.
pub open spec fn real_key(segment: Seq<char>) -> Seq<char> {
    let plain = trimmed(segment);
    match enclosure(plain, left_bracket(), right_bracket()) {
        Some((inner, _)) => unquoted(trimmed(inner)),
        None => plain,
    }
}

/// The keys of `path`, in order. The empty path has no keys.
pub open spec fn parse_path(path: Seq<char>) -> Seq<Seq<char>> {
    if path.len() == 0 {
        Seq::empty()
    } else {
        segments(path).map_values(|segment: Seq<char>| real_key(segment))
    }
}

/// Strips one pair of equal quote characters from around `key`.
fn unquote<'a>(key: &'a str) -> (r: &'a str)
    ensures
        r@ == unquoted(key@),
{
    let n = key.unicode_len();
    if n >= 2 {
        let first = key.get_char(0);
        let last = key.get_char(n - 1);
        if first == last && (first == '"' || first == '\'') {
            return key.substring_char(1, n - 1);
        }
    }
    key
}

/// Decodes one raw segment to the key it stands for.
fn remove_braces<'a>(input: &'a str) -> (key: &'a str)
    ensures
        key@ == real_key(input@),
{
    proof {
        reveal_strlit("[");
        reveal_strlit("]");
        assert("["@ =~= left_bracket());
        assert("]"@ =~= right_bracket());
    }
    let plain = trim(input);
    match delimited("[", "]", plain) {
        Some((_, inner)) => unquote(trim(inner)),
        None => plain,
    }
}

/// Splits `input` around the leftmost `sep` in it.
fn split_once<'a>(sep: &str, input: &'a str) -> (r: Option<(&'a str, &'a str)>)
    ensures
        match r {
            Some((head, tail)) => {
                &&& first_occurrence(input@, sep@) == Some(head@.len() as int)
                &&& input@ == head@ + sep@ + tail@
            },
            None => first_occurrence(input@, sep@) is None,
        },
{
    match take_until(sep, input) {
        Ok((at_sep, head)) => {
            let ghost n: int = head@.len() as int;
            let ghost m: int = sep@.len() as int;
            proof {
                lemma_first_occurrence_found(input@, sep@, n);
                // `at_sep` begins with `sep`, so the tag is found.
                assert(at_sep@.subrange(0, m) =~= input@.subrange(n, n + m));
            }
            match tag(sep, at_sep) {
                Ok((tail, _)) => Some((head, tail)),
                Err(_) => None,
            }
        },
        Err(_) => {
            proof {
                lemma_first_occurrence_none(input@, sep@);
            }
            None
        },
    }
}

/// Parses a variable path into its keys.
pub fn key_parser<'a>(text: &'a str) -> (keys: Vec<&'a str>)
    ensures
        keys.deep_view() == parse_path(text@),
{
    let mut keys: Vec<&'a str> = Vec::new();
    if text.is_empty() {
        return keys;
    }
    let mut next_part = text;
    loop
        invariant
            text@.len() > 0,
            parse_path(text@) == keys.deep_view() + segments(next_part@).map_values(
                |segment: Seq<char>| real_key(segment),
            ),
        decreases next_part@.len(),
    {
        proof {
            reveal_strlit(".");
            assert("."@ =~= dot());
        }
        let ghost current = next_part@;
        match split_once(".", next_part) {
            Some((head, tail)) => {
                let key = remove_braces(head);
                keys.push(key);
                next_part = tail;
                proof {
                    let n: int = head@.len() as int;
                    assert(head@ =~= current.take(n));
                    assert(tail@ =~= current.skip(n + 1));
                    assert(segments(current) == seq![head@] + segments(tail@));
                }
            },
            None => {
                let key = remove_braces(next_part);
                keys.push(key);
                assert(segments(current) == seq![current]);
                return keys;
            },
        }
    }
}

} // verus!
