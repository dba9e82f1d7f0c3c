//! Facts about sequences that the store's proofs share: the first element
//! with a property, and what `filter` keeps.

use vstd::prelude::*;

verus! {

/// The position of the first element of `s` that satisfies `p`; the length
/// of `s` where none does.
pub open spec fn first_index<A>(s: Seq<A>, p: spec_fn(A) -> bool) -> int
    decreases s.len(),
{
    if s.len() == 0 {
        0
    } else if p(s[0]) {
        0
    } else {
        1 + first_index(s.drop_first(), p)
    }
}

/// The first element of `s` that satisfies `p`.
pub open spec fn first_where<A>(s: Seq<A>, p: spec_fn(A) -> bool) -> Option<A> {
    let i = first_index(s, p);
    if i < s.len() {
        Some(s[i])
    } else {
        None
    }
}

/// `first_index` is within bounds, nothing before it satisfies `p`, and the
/// element at it does where there is one.
pub proof fn lemma_first_index<A>(s: Seq<A>, p: spec_fn(A) -> bool)
    ensures
        0 <= first_index(s, p) <= s.len(),
        forall|j: int| 0 <= j < first_index(s, p) ==> !p(#[trigger] s[j]),
        first_index(s, p) < s.len() ==> p(s[first_index(s, p)]),
    decreases s.len(),
{
    if s.len() > 0 && !p(s[0]) {
        let t = s.drop_first();
        lemma_first_index(t, p);
        assert forall|j: int| 0 <= j < first_index(s, p) implies !p(#[trigger] s[j]) by {
            if j > 0 {
                assert(s[j] == t[j - 1]);
            }
        }
    }
}

/// An index whose element satisfies `p`, with none before it that does, is
/// the `first_index`; so is the length, where no element satisfies `p`.
pub proof fn lemma_first_index_is<A>(s: Seq<A>, p: spec_fn(A) -> bool, i: int)
    requires
        0 <= i <= s.len(),
        forall|j: int| 0 <= j < i ==> !p(#[trigger] s[j]),
        i < s.len() ==> p(s[i]),
    ensures
        first_index(s, p) == i,
{
    lemma_first_index(s, p);
    let k = first_index(s, p);
    if k < i {
        assert(!p(s[k]));
    } else if i < k {
        assert(!p(s[i]));
    }
}

/// A filter that every element passes keeps the sequence as it is.
pub proof fn lemma_filter_all<A>(s: Seq<A>, p: spec_fn(A) -> bool)
    requires
        forall|j: int| 0 <= j < s.len() ==> p(#[trigger] s[j]),
    ensures
        s.filter(p) == s,
    decreases s.len(),
{
    reveal(Seq::filter);
    if s.len() > 0 {
        let t = s.drop_last();
        assert forall|j: int| 0 <= j < t.len() implies p(#[trigger] t[j]) by {
            assert(t[j] == s[j]);
        }
        lemma_filter_all(t, p);
        assert(t.push(s.last()) =~= s);
    }
}

/// A filter that every element passes but the one at `i` removes that one.
pub proof fn lemma_filter_remove<A>(s: Seq<A>, p: spec_fn(A) -> bool, i: int)
    requires
        0 <= i < s.len(),
        !p(s[i]),
        forall|j: int| 0 <= j < s.len() && j != i ==> p(#[trigger] s[j]),
    ensures
        s.filter(p) == s.remove(i),
    decreases s.len(),
{
    reveal(Seq::filter);
    let t = s.drop_last();
    if i == s.len() - 1 {
        assert forall|j: int| 0 <= j < t.len() implies p(#[trigger] t[j]) by {
            assert(t[j] == s[j]);
        }
        lemma_filter_all(t, p);
        assert(t =~= s.remove(i));
    } else {
        assert forall|j: int| 0 <= j < t.len() && j != i implies p(#[trigger] t[j]) by {
            assert(t[j] == s[j]);
        }
        assert(t[i] == s[i]);
        lemma_filter_remove(t, p, i);
        assert(p(s[s.len() - 1]));
        assert(t.remove(i).push(s.last()) =~= s.remove(i));
    }
}

/// Where the element at position `a` of a filtered sequence stood before.
pub proof fn lemma_filter_source<A>(s: Seq<A>, p: spec_fn(A) -> bool, a: int) -> (i: int)
    requires
        0 <= a < s.filter(p).len(),
    ensures
        0 <= i < s.len(),
        s[i] == s.filter(p)[a],
        p(s[i]),
    decreases s.len(),
{
    reveal(Seq::filter);
    let t = s.drop_last();
    if p(s.last()) && a == t.filter(p).len() {
        s.len() - 1
    } else {
        let i = lemma_filter_source(t, p, a);
        assert(t[i] == s[i]);
        i
    }
}

/// A filter keeps the order: two positions of the filtered sequence come
/// from two positions of the unfiltered one in the same order.
pub proof fn lemma_filter_pair<A>(s: Seq<A>, p: spec_fn(A) -> bool, a: int, b: int) -> (at: (
    int,
    int,
))
    requires
        0 <= a < b < s.filter(p).len(),
    ensures
        0 <= at.0 < at.1 < s.len(),
        s[at.0] == s.filter(p)[a],
        s[at.1] == s.filter(p)[b],
    decreases s.len(),
{
    reveal(Seq::filter);
    let t = s.drop_last();
    if p(s.last()) && b == t.filter(p).len() {
        let i = lemma_filter_source(t, p, a);
        assert(t[i] == s[i]);
        (i, s.len() - 1)
    } else {
        let at = lemma_filter_pair(t, p, a, b);
        assert(t[at.0] == s[at.0]);
        assert(t[at.1] == s[at.1]);
        at
    }
}

/// Where an element that passes the filter stands afterwards.
pub proof fn lemma_filter_keeps<A>(s: Seq<A>, p: spec_fn(A) -> bool, i: int) -> (a: int)
    requires
        0 <= i < s.len(),
        p(s[i]),
    ensures
        0 <= a < s.filter(p).len(),
        s.filter(p)[a] == s[i],
    decreases s.len(),
{
    reveal(Seq::filter);
    let t = s.drop_last();
    if i == s.len() - 1 {
        t.filter(p).len() as int
    } else {
        assert(t[i] == s[i]);
        lemma_filter_keeps(t, p, i)
    }
}

/// One more element of `s` is taken: the filtered prefix grows by it where
/// it passes, and stays where it does not.
pub proof fn lemma_filter_step<A>(s: Seq<A>, p: spec_fn(A) -> bool, i: int)
    requires
        0 <= i < s.len(),
    ensures
        s.take(i + 1).filter(p) == if p(s[i]) {
            s.take(i).filter(p).push(s[i])
        } else {
            s.take(i).filter(p)
        },
{
    reveal(Seq::filter);
    assert(s.take(i + 1).drop_last() =~= s.take(i));
}

} // verus!
