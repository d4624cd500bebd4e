//! First-match lookup over sequences.
//!
//! The store and the cache both answer queries with the first row that
//! satisfies a predicate, in insertion order. `first_where` is the
//! mathematical value of such a lookup; the lemmas connect it to the loops
//! that implement it.

use vstd::prelude::*;

verus! {

/// Whether `i` is the index of the first element of `s` satisfying `p`.
pub open spec fn is_first_where<T>(s: Seq<T>, p: spec_fn(T) -> bool, i: int) -> bool {
    &&& 0 <= i < s.len()
    &&& p(s[i])
    &&& forall|j: int| 0 <= j < i ==> !p(#[trigger] s[j])
}

/// The first element of `s` satisfying `p`, if any.
pub open spec fn first_where<T>(s: Seq<T>, p: spec_fn(T) -> bool) -> Option<T> {
    if exists|i: int| is_first_where(s, p, i) {
        Some(s[choose|i: int| is_first_where(s, p, i)])
    } else {
        None
    }
}

/// If any element satisfies `p`, a first one does.
pub proof fn lemma_first_where_exists<T>(s: Seq<T>, p: spec_fn(T) -> bool, k: int)
    requires
        0 <= k < s.len(),
        p(s[k]),
    ensures
        exists|i: int| is_first_where(s, p, i),
    decreases k,
{
    if forall|j: int| 0 <= j < k ==> !p(#[trigger] s[j]) {
        assert(is_first_where(s, p, k));
    } else {
        let j = choose|j: int| 0 <= j < k && p(#[trigger] s[j]);
        lemma_first_where_exists(s, p, j);
    }
}

/// A first match pins the lookup's value down.
pub proof fn lemma_first_where_is<T>(s: Seq<T>, p: spec_fn(T) -> bool, i: int)
    requires
        is_first_where(s, p, i),
    ensures
        first_where(s, p) == Some(s[i]),
{
    let c = choose|j: int| is_first_where(s, p, j);
    if c < i {
        assert(p(s[c]));
        assert(false);
    } else if i < c {
        assert(p(s[i]));
        assert(false);
    }
}

/// Without a match anywhere, the lookup misses.
pub proof fn lemma_first_where_none<T>(s: Seq<T>, p: spec_fn(T) -> bool)
    requires
        forall|i: int| 0 <= i < s.len() ==> !p(#[trigger] s[i]),
    ensures
        first_where(s, p) is None,
{
    if exists|i: int| is_first_where(s, p, i) {
        let i = choose|i: int| is_first_where(s, p, i);
        assert(p(s[i]));
        assert(false);
    }
}

/// A lookup that misses rules a match out everywhere.
pub proof fn lemma_first_where_none_inv<T>(s: Seq<T>, p: spec_fn(T) -> bool)
    requires
        first_where(s, p) is None,
    ensures
        forall|i: int| 0 <= i < s.len() ==> !p(#[trigger] s[i]),
{
    assert forall|i: int| 0 <= i < s.len() implies !p(#[trigger] s[i]) by {
        if p(s[i]) {
            lemma_first_where_exists(s, p, i);
        }
    }
}

/// A lookup that hits returns an element that satisfies the predicate.
pub proof fn lemma_first_where_some<T>(s: Seq<T>, p: spec_fn(T) -> bool)
    requires
        first_where(s, p) is Some,
    ensures
        exists|i: int| is_first_where(s, p, i) && first_where(s, p) == Some(s[i]),
        p(first_where(s, p).unwrap()),
{
    let i = choose|i: int| is_first_where(s, p, i);
    assert(is_first_where(s, p, i) && first_where(s, p) == Some(s[i]));
}

} // verus!
