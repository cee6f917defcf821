//! Text helpers: equality of string slices and the search for the first
//! occurrence of a character.

use vstd::prelude::*;
use vstd::string::StringSliceAdditionalSpecFns;
use vstd::utf8::{encode_utf8, encode_utf8_decode_utf8};
use crate::occurrence::{first_occurrence, lemma_first_occurrence_absent, lemma_first_occurrence_is};

verus! {

/// Finds the first occurrence of `c` in `s`, counted in characters.
pub fn find_char(s: &str, c: char) -> (r: Option<usize>)
    ensures
        r is Some <==> first_occurrence(s@, c) is Some,
        r matches Some(i) ==> first_occurrence(s@, c) == Some(i as int),
{
    // A text has no more characters than bytes, and its bytes are counted
    // by a `usize`: the position below cannot overflow.
    let byte_count: usize = s.as_bytes().len();
    proof {
        lemma_encoding_is_no_shorter(s@);
    }
    let mut position: usize = 0;
    for x in it: s.chars()
        invariant
            it.seq() == s@,
            position == it.index(),
            s@.len() <= byte_count,
            forall|j: int| 0 <= j < it.index() ==> s@[j] != c,
    {
        if x == c {
            proof {
                lemma_first_occurrence_is(s@, c, position as int);
            }
            return Some(position);
        }
        position = position + 1;
    }
    proof {
        lemma_first_occurrence_absent(s@, c);
    }
    None
}

/// The UTF-8 encoding of a text has at least one byte per character.
proof fn lemma_encoding_is_no_shorter(chars: Seq<char>)
    ensures
        chars.len() <= encode_utf8(chars).len(),
    decreases chars.len(),
{
    if chars.len() > 0 {
        lemma_encoding_is_no_shorter(chars.drop_first());
    }
}

/// Whether two string slices hold the same characters.
pub fn str_eq(a: &str, b: &str) -> (r: bool)
    ensures
        r == (a@ == b@),
{
    let x = a.as_bytes();
    let y = b.as_bytes();
    if x.len() != y.len() {
        return false;
    }
    let mut i: usize = 0;
    while i < x.len()
        invariant
            x@.len() == y@.len(),
            i <= x@.len(),
            x@ == a.spec_bytes(),
            y@ == b.spec_bytes(),
            forall|j: int| 0 <= j < i ==> x@[j] == y@[j],
        decreases x@.len() - i,
    {
        if x[i] != y[i] {
            return false;
        }
        i = i + 1;
    }
    proof {
        assert(x@ =~= y@);
        encode_utf8_decode_utf8(a@);
        encode_utf8_decode_utf8(b@);
    }
    true
}

} // verus!
