//! Searching, pairing and reversing sequences.

use vstd::prelude::*;

verus! {

/// Whether `i` is the first place of `s` whose element satisfies `pred`.
pub open spec fn is_first_where<A>(s: Seq<A>, pred: spec_fn(A) -> bool, i: int) -> bool {
    &&& 0 <= i < s.len()
    &&& pred(s[i])
    &&& forall|j: int| 0 <= j < i ==> !pred(#[trigger] s[j])
}

/// The first place of `s` whose element satisfies `pred`, if there is one.
pub open spec fn first_where<A>(s: Seq<A>, pred: spec_fn(A) -> bool) -> Option<int> {
    if exists|i: int| is_first_where(s, pred, i) {
        Some(choose|i: int| is_first_where(s, pred, i))
    } else {
        None
    }
}

/// Where some element satisfies `pred`, there is a first one.
pub proof fn lemma_first_where_exists<A>(s: Seq<A>, pred: spec_fn(A) -> bool, k: int)
    requires
        0 <= k < s.len(),
        pred(s[k]),
    ensures
        first_where(s, pred) matches Some(i) && i <= k && is_first_where(s, pred, i),
    decreases k,
{
    if exists|j: int| 0 <= j < k && pred(#[trigger] s[j]) {
        let j = choose|j: int| 0 <= j < k && pred(#[trigger] s[j]);
        lemma_first_where_exists(s, pred, j);
    } else {
        assert(is_first_where(s, pred, k));
        let i = choose|i: int| is_first_where(s, pred, i);
        assert(i == k) by {
            if i < k {
                assert(pred(s[i]));
            } else if k < i {
                assert(pred(s[k]));
            }
        }
    }
}

/// A first place is the only one.
pub proof fn lemma_first_where_is<A>(s: Seq<A>, pred: spec_fn(A) -> bool, i: int)
    requires
        is_first_where(s, pred, i),
    ensures
        first_where(s, pred) == Some(i),
{
    lemma_first_where_exists(s, pred, i);
    let k = first_where(s, pred).unwrap();
    if k < i {
        assert(pred(s[k]));
    }
}

/// The elements of `a` and `b` side by side.
pub open spec fn paired<A, B>(a: Seq<A>, b: Seq<B>) -> Seq<(A, B)> {
    Seq::new(a.len(), |i: int| (a[i], b[i]))
}

/// Moves the elements of `v` out, last one first.
pub fn take_reversed<T>(v: &mut Vec<T>) -> (reversed: Vec<T>)
    ensures
        reversed@ == old(v)@.reverse(),
        final(v)@ == Seq::<T>::empty(),
{
    let ghost all = v@;
    let mut reversed: Vec<T> = Vec::new();
    while v.len() > 0
        invariant
            v@.len() <= all.len(),
            v@ == all.take(v@.len() as int),
            reversed@ == all.skip(v@.len() as int).reverse(),
        decreases v@.len(),
    {
        let last = v.pop().unwrap();
        reversed.push(last);
        assert(reversed@ =~= all.skip(v@.len() as int).reverse());
    }
    assert(reversed@ =~= all.reverse());
    assert(v@ =~= Seq::<T>::empty());
    reversed
}

} // verus!
