use vstd::prelude::*;

verus! {

/// `pattern` occurs in `s` starting at index `at`.
pub open spec fn occurs_at<A>(s: Seq<A>, at: int, pattern: Seq<A>) -> bool {
    &&& 0 <= at
    &&& at + pattern.len() <= s.len()
    &&& s.subrange(at, at + pattern.len()) =~= pattern
}

/// `pattern` occurs in `s` at index `at` and at no smaller index.
pub open spec fn is_first_occurrence<A>(s: Seq<A>, pattern: Seq<A>, at: int) -> bool {
    &&& occurs_at(s, at, pattern)
    &&& forall|j: int| 0 <= j < at ==> !occurs_at(s, j, pattern)
}

/// The smallest index at which `pattern` occurs in `s`, if it occurs at all.
pub open spec fn first_occurrence<A>(s: Seq<A>, pattern: Seq<A>) -> Option<int> {
    if exists|at: int| is_first_occurrence(s, pattern, at) {
        Some(choose|at: int| is_first_occurrence(s, pattern, at))
    } else {
        None
    }
}

/// An index that is a first occurrence is the first occurrence.
pub proof fn lemma_first_occurrence_is<A>(s: Seq<A>, pattern: Seq<A>, at: int)
    requires
        is_first_occurrence(s, pattern, at),
    ensures
        first_occurrence(s, pattern) == Some(at),
{
    let found = choose|i: int| is_first_occurrence(s, pattern, i);
    assert(is_first_occurrence(s, pattern, found));
    if found < at {
        assert(!occurs_at(s, found, pattern));
    }
    if at < found {
        assert(!occurs_at(s, at, pattern));
    }
}

/// A pattern that occurs nowhere has no first occurrence.
pub proof fn lemma_first_occurrence_none<A>(s: Seq<A>, pattern: Seq<A>)
    requires
        forall|j: int| !occurs_at(s, j, pattern),
    ensures
        first_occurrence(s, pattern) is None,
{
}

} // verus!
