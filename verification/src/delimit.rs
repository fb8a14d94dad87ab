//! Delimited spans: the text between an opening and a closing marker.

use vstd::prelude::*;
use crate::primitives::{tag, take_until};
use crate::text::{enclosure, lemma_first_occurrence_found, lemma_first_occurrence_none};

verus! {

/// Matches `open` at the start of `input`, then everything up to the leftmost
/// `close` after it, then that `close`. Returns what follows the `close` and
/// what stood between the markers, in that order.
pub fn delimited<'a>(open: &str, close: &str, input: &'a str) -> (r: Option<(&'a str, &'a str)>)
    ensures
        match r {
            Some((rest, inner)) => enclosure(input@, open@, close@) == Some((inner@, rest@)),
            None => enclosure(input@, open@, close@) is None,
        },
{
    match tag(open, input) {
        Ok((after_open, _)) => {
            assert(input@.subrange(0, open@.len() as int) =~= open@);
            assert(after_open@ =~= input@.skip(open@.len() as int));
            match take_until(close, after_open) {
                Ok((at_close, inner)) => {
                    let ghost n: int = inner@.len() as int;
                    let ghost m: int = close@.len() as int;
                    proof {
                        lemma_first_occurrence_found(after_open@, close@, n);
                    }
                    // `at_close` begins with `close`, so the second tag is found.
                    assert(at_close@.subrange(0, m) =~= after_open@.subrange(n, n + m));
                    match tag(close, at_close) {
                        Ok((rest, _)) => Some((rest, inner)),
                        Err(_) => None,
                    }
                },
                Err(_) => {
                    proof {
                        lemma_first_occurrence_none(after_open@, close@);
                    }
                    None
                },
            }
        },
        Err(_) => None,
    }
}

} // verus!
