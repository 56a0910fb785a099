//! Small facts about `Seq::filter` shared by the collection modules.

use vstd::prelude::*;

verus! {

/// An element of a filtered sequence comes from the sequence itself.
pub proof fn lemma_filter_elem_from<A>(s: Seq<A>, pred: spec_fn(A) -> bool, i: int)
    requires
        0 <= i < s.filter(pred).len(),
    ensures
        exists|k: int| 0 <= k < s.len() && s[k] == s.filter(pred)[i],
    decreases s.len(),
{
    reveal(Seq::filter);
    if s.len() > 0 {
        let dl = s.drop_last();
        if pred(s.last()) && i == s.filter(pred).len() - 1 {
            assert(s.filter(pred)[i] == s.last());
            assert(s[s.len() - 1] == s.filter(pred)[i]);
        } else {
            lemma_filter_elem_from(dl, pred, i);
            let k = choose|k: int| 0 <= k < dl.len() && dl[k] == dl.filter(pred)[i];
            assert(s[k] == dl.filter(pred)[i]);
            assert(s.filter(pred)[i] == dl.filter(pred)[i]);
        }
    }
}

/// A pairwise relation that holds across a sequence still holds across any
/// filtering of it.
pub proof fn lemma_filter_preserves_pairwise<A>(
    s: Seq<A>,
    pred: spec_fn(A) -> bool,
    rel: spec_fn(A, A) -> bool,
)
    requires
        forall|i: int, j: int| 0 <= i < j < s.len() ==> rel(s[i], s[j]),
        forall|a: A, b: A| #[trigger] rel(a, b) ==> rel(b, a),
    ensures
        forall|i: int, j: int|
            0 <= i < j < s.filter(pred).len() ==> rel(s.filter(pred)[i], s.filter(pred)[j]),
    decreases s.len(),
{
    reveal(Seq::filter);
    if s.len() > 0 {
        let dl = s.drop_last();
        lemma_filter_preserves_pairwise(dl, pred, rel);
        if pred(s.last()) {
            assert forall|i: int| 0 <= i < dl.filter(pred).len() implies rel(
                dl.filter(pred)[i],
                s.last(),
            ) by {
                lemma_filter_elem_from(dl, pred, i);
                let e = dl.filter(pred)[i];
                let k = choose|k: int| 0 <= k < dl.len() && dl[k] == e;
                assert(s[k] == e);
                assert(rel(s[k], s[s.len() - 1]));
            }
        }
    }
}

} // verus!
