//! The string primitives the engine is built from. Each function here hands
//! its arguments to a routine of `nom` or of the standard library; what is
//! stated of the result is taken on trust from that routine's documentation
//! and is not proved.

use vstd::prelude::*;
use crate::text::{is_first_occurrence, occurs_at, occurs_in, trimmed};

verus! {

/// `nom::Err`, the error side of every `nom` parser's result. Nothing is
/// stated of its contents.
#[verifier::external_type_specification]
#[verifier::external_body]
#[verifier::reject_recursive_types(E)]
pub struct ExNomErr<E>(nom::Err<E>);

/// `nom::error::Error`, the default payload of `nom::Err`. Nothing is stated
/// of its contents.
#[verifier::external_type_specification]
#[verifier::external_body]
#[verifier::reject_recursive_types(I)]
pub struct ExNomError<I>(nom::error::Error<I>);

/// `nom::bytes::complete::take_until` on string slices: splits `input` in
/// front of the leftmost occurrence of `pat` and returns `(rest, found)`,
/// where `found` is what precedes the occurrence and `rest` begins with it.
/// It fails exactly when `pat` does not occur in `input`.
#[verifier::external_body]
pub(crate) fn take_until<'a>(pat: &str, input: &'a str) -> (r: Result<
    (&'a str, &'a str),
    nom::Err<nom::error::Error<&'a str>>,
>)
    ensures
        match r {
            Ok((rest, found)) => {
                &&& found@ + rest@ == input@
                &&& is_first_occurrence(input@, pat@, found@.len() as int)
            },
            Err(_) => !occurs_in(input@, pat@),
        },
{
    nom::bytes::complete::take_until(pat)(input)
}

/// `nom::bytes::complete::tag` on string slices: where `input` begins with
/// `pat`, returns `(rest, matched)` with `matched` equal to `pat` and `rest`
/// what follows it. It fails exactly when `input` does not begin with `pat`.
#[verifier::external_body]
pub(crate) fn tag<'a>(pat: &str, input: &'a str) -> (r: Result<
    (&'a str, &'a str),
    nom::Err<nom::error::Error<&'a str>>,
>)
    ensures
        match r {
            Ok((rest, matched)) => matched@ == pat@ && matched@ + rest@ == input@,
            Err(_) => !occurs_at(input@, pat@, 0),
        },
{
    nom::bytes::complete::tag(pat)(input)
}

/// `str::trim`: the slice of `s` left after its leading and trailing
/// `White_Space` characters are removed.
#[verifier::external_body]
pub(crate) fn trim<'a>(s: &'a str) -> (r: &'a str)
    ensures
        r@ == trimmed(s@),
{
    s.trim()
}

/// `str::eq`: two string slices are equal when they hold the same characters.
#[verifier::external_body]
pub(crate) fn same_text(a: &str, b: &str) -> (r: bool)
    ensures
        r == (a@ == b@),
{
    a == b
}

} // verus!
