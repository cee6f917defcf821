//! The first occurrence of an item in a sequence.

use vstd::prelude::*;

verus! {

/// `i` is the position of the first occurrence of `x` in `s`.
pub open spec fn is_first_occurrence<A>(s: Seq<A>, x: A, i: int) -> bool {
    &&& 0 <= i < s.len()
    &&& s[i] == x
    &&& forall|j: int| 0 <= j < i ==> s[j] != x
}

/// The position of the first occurrence of `x` in `s`, if `x` occurs at all.
pub open spec fn first_occurrence<A>(s: Seq<A>, x: A) -> Option<int> {
    if exists|i: int| is_first_occurrence(s, x, i) {
        Some(choose|i: int| is_first_occurrence(s, x, i))
    } else {
        None
    }
}

/// A position that satisfies `is_first_occurrence` is the one that
/// `first_occurrence` reports.
pub proof fn lemma_first_occurrence_is<A>(s: Seq<A>, x: A, i: int)
    requires
        is_first_occurrence(s, x, i),
    ensures
        first_occurrence(s, x) == Some(i),
{
}

/// Where `x` does not occur, there is no first occurrence.
pub proof fn lemma_first_occurrence_absent<A>(s: Seq<A>, x: A)
    requires
        forall|j: int| 0 <= j < s.len() ==> s[j] != x,
    ensures
        first_occurrence(s, x) is None,
{
}

/// If `x` occurs at `k`, some position at or before `k` is its first
/// occurrence.
proof fn lemma_some_occurrence_has_first<A>(s: Seq<A>, x: A, k: int)
    requires
        0 <= k < s.len(),
        s[k] == x,
    ensures
        exists|i: int| is_first_occurrence(s, x, i),
    decreases k,
{
    if forall|j: int| 0 <= j < k ==> s[j] != x {
        assert(is_first_occurrence(s, x, k));
    } else {
        let j = choose|j: int| 0 <= j < k && s[j] == x;
        lemma_some_occurrence_has_first(s, x, j);
    }
}

/// `first_occurrence` is `None` exactly when `x` occurs nowhere in `s`, and
/// otherwise names a position that holds `x` with none before it.
pub proof fn lemma_first_occurrence_cases<A>(s: Seq<A>, x: A)
    ensures
        first_occurrence(s, x) matches Some(i) ==> is_first_occurrence(s, x, i),
        first_occurrence(s, x) is None ==> forall|j: int| 0 <= j < s.len() ==> s[j] != x,
{
    if first_occurrence(s, x) is None {
        assert forall|j: int| 0 <= j < s.len() implies s[j] != x by {
            if s[j] == x {
                lemma_some_occurrence_has_first(s, x, j);
            }
        }
    }
}

} // verus!
