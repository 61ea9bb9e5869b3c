//! Laws of sufficient statistics, stated over their models.
use vstd::prelude::*;

use crate::data::DataOrSuffStat;
use crate::traits::{observed_all, SuffStat};

verus! {

/// Taking a value out of an accumulator right after folding it in gives back
/// the accumulator as it was before.
pub proof fn lemma_observe_then_forget<X, S: SuffStat<X>>(m: S::V, x: X)
    requires
        S::valid(m),
        S::can_observe(m, x),
    ensures
        S::forgotten(S::observed(m, x), x) == m,
{
    S::lemma_forget_undoes_observe(m, x);
}

/// Folding in a value before a sequence is the same as folding it in after.
proof fn lemma_observe_first_is_last<X, S: SuffStat<X>>(m: S::V, a: X, xs: Seq<X>)
    ensures
        observed_all::<X, S>(m, seq![a] + xs) == S::observed(observed_all::<X, S>(m, xs), a),
    decreases xs.len(),
{
    if xs.len() == 0 {
        assert(seq![a] + xs =~= seq![a]);
        assert(seq![a].drop_last() =~= Seq::<X>::empty());
        assert(observed_all::<X, S>(m, seq![a].drop_last()) == m);
    } else {
        let ys = xs.drop_last();
        assert((seq![a] + xs).drop_last() =~= seq![a] + ys);
        assert((seq![a] + xs).last() == xs.last());
        lemma_observe_first_is_last::<X, S>(m, a, ys);
        S::lemma_observe_commutes(observed_all::<X, S>(m, ys), a, xs.last());
    }
}

/// Folding a sequence in backwards gives the same accumulator as folding it
/// in forwards.
pub proof fn lemma_observe_many_reversed<X, S: SuffStat<X>>(m: S::V, xs: Seq<X>)
    ensures
        observed_all::<X, S>(m, xs.reverse()) == observed_all::<X, S>(m, xs),
    decreases xs.len(),
{
    if xs.len() == 0 {
        assert(xs.reverse() =~= xs);
    } else {
        let ys = xs.drop_last();
        assert(xs.reverse() =~= seq![xs.last()] + ys.reverse());
        lemma_observe_first_is_last::<X, S>(m, xs.last(), ys.reverse());
        lemma_observe_many_reversed::<X, S>(m, ys);
    }
}

/// Folding in `a` and then `b` gives the accumulator of their concatenation:
/// sufficient statistics add up over disjoint parts of the data.
pub proof fn lemma_observe_many_concat<X, S: SuffStat<X>>(m: S::V, a: Seq<X>, b: Seq<X>)
    ensures
        observed_all::<X, S>(m, a + b) == observed_all::<X, S>(observed_all::<X, S>(m, a), b),
    decreases b.len(),
{
    if b.len() == 0 {
        assert(a + b =~= a);
    } else {
        assert((a + b).drop_last() =~= a + b.drop_last());
        lemma_observe_many_concat::<X, S>(m, a, b.drop_last());
    }
}

/// Folding in a sequence counts each of its elements once.
pub proof fn lemma_observe_many_count<X, S: SuffStat<X>>(m: S::V, xs: Seq<X>)
    ensures
        S::count(observed_all::<X, S>(m, xs)) == S::count(m) + xs.len(),
    decreases xs.len(),
{
    if xs.len() > 0 {
        lemma_observe_many_count::<X, S>(m, xs.drop_last());
        S::lemma_observe_counts_one(observed_all::<X, S>(m, xs.drop_last()), xs.last());
    }
}

/// A view counts as many observations as the accumulator it reduces to,
/// whichever way it holds them.
pub proof fn lemma_count_agrees_with_reduction<'a, X, S: SuffStat<X>>(
    x: DataOrSuffStat<'a, X, S>,
    empty: S::V,
)
    requires
        S::count(empty) == 0,
    ensures
        S::count(x.reduced(empty)) == x.count(),
{
    if let DataOrSuffStat::Data(xs) = x {
        lemma_observe_many_count::<X, S>(empty, xs@);
    }
}

} // verus!
