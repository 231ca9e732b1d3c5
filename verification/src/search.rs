//! Finding a byte pattern in a byte string.

use vstd::prelude::*;

verus! {

/// `pattern` stands in `text` at position `at`.
pub open spec fn occurs_at(text: Seq<u8>, pattern: Seq<u8>, at: int) -> bool {
    &&& 0 <= at
    &&& at + pattern.len() <= text.len()
    &&& text.subrange(at, at + pattern.len()) == pattern
}

/// `pattern` stands in `text` at `at`, and nowhere before.
pub open spec fn is_first_occurrence(text: Seq<u8>, pattern: Seq<u8>, at: int) -> bool {
    &&& occurs_at(text, pattern, at)
    &&& forall|earlier: int| 0 <= earlier < at ==> !occurs_at(text, pattern, earlier)
}

/// The position of the first occurrence of `pattern` in `text`, if there is one.
pub open spec fn first_occurrence(text: Seq<u8>, pattern: Seq<u8>) -> Option<int> {
    if exists|at: int| is_first_occurrence(text, pattern, at) {
        Some(choose|at: int| is_first_occurrence(text, pattern, at))
    } else {
        None
    }
}

/// A first occurrence is the first occurrence: there is only one.
pub proof fn lemma_first_occurrence_is(text: Seq<u8>, pattern: Seq<u8>, at: int)
    requires
        is_first_occurrence(text, pattern, at),
    ensures
        first_occurrence(text, pattern) == Some(at),
{
}

/// Where the pattern occurs at all, it has a first occurrence, at or before
/// the given one.
pub proof fn lemma_occurrence_has_first(text: Seq<u8>, pattern: Seq<u8>, at: int)
    requires
        occurs_at(text, pattern, at),
    ensures
        first_occurrence(text, pattern) matches Some(first) && 0 <= first <= at,
    decreases at,
{
    if exists|earlier: int| 0 <= earlier < at && occurs_at(text, pattern, earlier) {
        let earlier = choose|earlier: int| 0 <= earlier < at && occurs_at(text, pattern, earlier);
        lemma_occurrence_has_first(text, pattern, earlier);
    } else {
        lemma_first_occurrence_is(text, pattern, at);
    }
}

/// There is no first occurrence exactly when the pattern occurs nowhere.
pub proof fn lemma_first_occurrence_none(text: Seq<u8>, pattern: Seq<u8>)
    ensures
        first_occurrence(text, pattern) is None <==> forall|at: int|
            !occurs_at(text, pattern, at),
{
    if first_occurrence(text, pattern) is None {
        assert forall|at: int| !occurs_at(text, pattern, at) by {
            if occurs_at(text, pattern, at) {
                lemma_occurrence_has_first(text, pattern, at);
            }
        }
    }
}

/// Whether `pattern` stands in `text` at position `at`.
fn matches_at(text: &[u8], pattern: &[u8], at: usize) -> (found: bool)
    requires
        at + pattern@.len() <= text@.len(),
    ensures
        found == occurs_at(text@, pattern@, at as int),
{
    let mut k: usize = 0;
    while k < pattern.len()
        invariant
            k <= pattern.len(),
            at + pattern.len() <= text.len(),
            forall|j: int| 0 <= j < k ==> text@[at + j] == pattern@[j],
        decreases pattern@.len() - k,
    {
        if text[at + k] != pattern[k] {
            return false;
        }
        k += 1;
    }
    assert(text@.subrange(at as int, at + pattern@.len()) =~= pattern@);
    true
}

/// Whether `left` and `right` hold the same bytes.
pub fn same_bytes(left: &[u8], right: &[u8]) -> (same: bool)
    ensures
        same == (left@ == right@),
{
    if left.len() != right.len() {
        return false;
    }
    let same = matches_at(left, right, 0);
    assert(left@.subrange(0, right@.len() as int) =~= left@);
    same
}

/// The position of the first occurrence of `pattern` in `text`.
pub fn find_first(text: &[u8], pattern: &[u8]) -> (found: Option<usize>)
    ensures
        match found {
            Some(at) => first_occurrence(text@, pattern@) == Some(at as int),
            None => first_occurrence(text@, pattern@) is None,
        },
        found matches Some(at) ==> is_first_occurrence(text@, pattern@, at as int),
        found is None <==> forall|at: int| !occurs_at(text@, pattern@, at),
{
    if pattern.len() > text.len() {
        proof {
            lemma_first_occurrence_none(text@, pattern@);
        }
        return None;
    }
    let last: usize = text.len() - pattern.len();
    let mut at: usize = 0;
    loop
        invariant
            last == text.len() - pattern.len(),
            at <= last,
            forall|earlier: int| 0 <= earlier < at ==> !occurs_at(text@, pattern@, earlier),
        decreases last - at,
    {
        if matches_at(text, pattern, at) {
            proof {
                lemma_first_occurrence_is(text@, pattern@, at as int);
            }
            return Some(at);
        }
        if at == last {
            proof {
                lemma_first_occurrence_none(text@, pattern@);
            }
            return None;
        }
        at += 1;
    }
}

} // verus!
