//! Small sequence lemmas the query loops lean on.

use vstd::prelude::*;

verus! {

/// How a filter grows when one element is appended.
pub proof fn lemma_filter_push<A>(s: Seq<A>, x: A, pred: spec_fn(A) -> bool)
    ensures
        pred(x) ==> s.push(x).filter(pred) == s.filter(pred).push(x),
        !pred(x) ==> s.push(x).filter(pred) == s.filter(pred),
{
    reveal(Seq::filter);
    assert(s.push(x).drop_last() =~= s);
    assert(s.push(x).last() == x);
}

/// A filter of the empty sequence is empty.
pub proof fn lemma_filter_empty<A>(s: Seq<A>, pred: spec_fn(A) -> bool)
    requires
        s.len() == 0,
    ensures
        s.filter(pred) == Seq::<A>::empty(),
{
    reveal(Seq::filter);
    assert(s.filter(pred) =~= Seq::<A>::empty());
}

/// A filter never grows the sequence.
pub proof fn lemma_filter_len_le<A>(s: Seq<A>, pred: spec_fn(A) -> bool)
    ensures
        s.filter(pred).len() <= s.len(),
    decreases s.len(),
{
    reveal(Seq::filter);
    if s.len() > 0 {
        lemma_filter_len_le(s.drop_last(), pred);
    }
}

/// Every element of a filter is an element of the source.
pub proof fn lemma_filter_element_of<A>(s: Seq<A>, pred: spec_fn(A) -> bool, i: int)
    requires
        0 <= i < s.filter(pred).len(),
    ensures
        exists|j: int| 0 <= j < s.len() && #[trigger] s[j] == s.filter(pred)[i],
    decreases s.len(),
{
    reveal(Seq::filter);
    lemma_filter_len_le(s, pred);
    if s.len() > 0 {
        let t = s.drop_last();
        if pred(s.last()) && i == s.filter(pred).len() - 1 {
            assert(s[s.len() - 1] == s.filter(pred)[i]);
        } else {
            lemma_filter_element_of(t, pred, i);
            let j = choose|j: int| 0 <= j < t.len() && #[trigger] t[j] == t.filter(pred)[i];
            assert(s[j] == s.filter(pred)[i]);
        }
    }
}

} // verus!
