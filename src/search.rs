//! First-match search over sequences, the lookup discipline used by every
//! catalog and cache of the library.

use vstd::prelude::*;

verus! {

/// `i` is the first position of `s` whose element satisfies `p`.
pub open spec fn is_first<A>(s: Seq<A>, p: spec_fn(A) -> bool, i: int) -> bool {
    &&& 0 <= i < s.len()
    &&& p(s[i])
    &&& forall|j: int| 0 <= j < i ==> !p(#[trigger] s[j])
}

/// The first position of `s` whose element satisfies `p`, if any.
pub open spec fn first_index<A>(s: Seq<A>, p: spec_fn(A) -> bool) -> Option<int> {
    if exists|i: int| is_first(s, p, i) {
        Some(choose|i: int| is_first(s, p, i))
    } else {
        None
    }
}

pub proof fn lemma_first_index_is<A>(s: Seq<A>, p: spec_fn(A) -> bool, i: int)
    requires
        is_first(s, p, i),
    ensures
        first_index(s, p) == Some(i),
{
    let k = choose|k: int| is_first(s, p, k);
    assert(is_first(s, p, k));
    if k < i {
        assert(!p(s[k]));
    }
    if k > i {
        assert(!p(s[i]));
    }
}

pub proof fn lemma_first_index_none<A>(s: Seq<A>, p: spec_fn(A) -> bool)
    requires
        forall|j: int| 0 <= j < s.len() ==> !p(#[trigger] s[j]),
    ensures
        first_index(s, p) == None::<int>,
{
    if exists|i: int| is_first(s, p, i) {
        let k = choose|k: int| is_first(s, p, k);
        assert(p(s[k]));
    }
}

pub proof fn lemma_first_index_push<A>(s: Seq<A>, p: spec_fn(A) -> bool, x: A)
    requires
        first_index(s, p) is Some,
    ensures
        first_index(s.push(x), p) == first_index(s, p),
{
    let k = choose|k: int| is_first(s, p, k);
    lemma_first_index_is(s, p, k);
    assert(is_first(s.push(x), p, k)) by {
        assert forall|j: int| 0 <= j < k implies !p(#[trigger] s.push(x)[j]) by {
            assert(s.push(x)[j] == s[j]);
        }
    }
    lemma_first_index_is(s.push(x), p, k);
}

pub proof fn lemma_first_index_push_new<A>(s: Seq<A>, p: spec_fn(A) -> bool, x: A)
    requires
        first_index(s, p) is None,
        p(x),
    ensures
        first_index(s.push(x), p) == Some(s.len() as int),
{
    if exists|j: int| 0 <= j < s.len() && p(#[trigger] s[j]) {
        let j = choose|j: int| 0 <= j < s.len() && p(#[trigger] s[j]);
        lemma_first_exists(s, p, j);
    }
    assert(is_first(s.push(x), p, s.len() as int)) by {
        assert forall|j: int| 0 <= j < s.len() implies !p(#[trigger] s.push(x)[j]) by {
            assert(s.push(x)[j] == s[j]);
        }
    }
    lemma_first_index_is(s.push(x), p, s.len() as int);
}

/// Where some element satisfies `p`, a first one does.
pub proof fn lemma_first_exists<A>(s: Seq<A>, p: spec_fn(A) -> bool, j: int)
    requires
        0 <= j < s.len(),
        p(s[j]),
    ensures
        first_index(s, p) is Some,
    decreases j,
{
    if forall|k: int| 0 <= k < j ==> !p(#[trigger] s[k]) {
        lemma_first_index_is(s, p, j);
    } else {
        let k = choose|k: int| 0 <= k < j && p(#[trigger] s[k]);
        lemma_first_exists(s, p, k);
    }
}

pub proof fn lemma_first_index_is_first<A>(s: Seq<A>, p: spec_fn(A) -> bool)
    requires
        first_index(s, p) is Some,
    ensures
        is_first(s, p, first_index(s, p)->0),
{
}

} // verus!
