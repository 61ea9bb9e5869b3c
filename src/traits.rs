//! Trait definitions
use vstd::prelude::*;

verus! {

/// A fixed-size accumulator that reduces a sequence of observations of type
/// `X` to what a likelihood needs.
///
/// Each accumulator has a mathematical model (its view). The model of an
/// accumulator after an observation is `observed(model, x)`, after removing
/// one it is `forgotten(model, x)`. Folding in and taking out the same value
/// are exact inverses, and folding is insensitive to order.
pub trait SuffStat<X>: Sized + View {
    /// The models that an accumulator can hold.
    spec fn valid(m: Self::V) -> bool;

    /// The number of observations a model records.
    spec fn count(m: Self::V) -> nat;

    /// The model after `x` is folded in.
    spec fn observed(m: Self::V, x: X) -> Self::V;

    /// The model after `x` is taken out.
    spec fn forgotten(m: Self::V, x: X) -> Self::V;

    /// `x` can be folded into `m` within the limits of the machine.
    spec fn can_observe(m: Self::V, x: X) -> bool;

    /// `x` is among what `m` records, so it can be taken out.
    spec fn can_forget(m: Self::V, x: X) -> bool;

    /// Taking out a value right after folding it in restores the model.
    proof fn lemma_forget_undoes_observe(m: Self::V, x: X)
        requires
            Self::valid(m),
            Self::can_observe(m, x),
        ensures
            Self::valid(Self::observed(m, x)),
            Self::can_forget(Self::observed(m, x), x),
            Self::forgotten(Self::observed(m, x), x) == m,
    ;

    /// Folding in counts one observation.
    proof fn lemma_observe_counts_one(m: Self::V, x: X)
        ensures
            Self::count(Self::observed(m, x)) == Self::count(m) + 1,
    ;

    /// Two observations can be folded in either order.
    proof fn lemma_observe_commutes(m: Self::V, x: X, y: X)
        ensures
            Self::observed(Self::observed(m, x), y) == Self::observed(Self::observed(m, y), x),
    ;

    /// The number of observations.
    fn n(&self) -> (r: usize)
        ensures
            r == Self::count(self@),
    ;

    /// Folds one observation in.
    fn observe(&mut self, x: &X)
        requires
            Self::valid(old(self)@),
            Self::can_observe(old(self)@, *x),
        ensures
            Self::valid(final(self)@),
            final(self)@ == Self::observed(old(self)@, *x),
    ;

    /// Takes one observation out. Taking out a value that was never folded
    /// in is ruled out by the precondition.
    fn forget(&mut self, x: &X)
        requires
            Self::valid(old(self)@),
            Self::can_forget(old(self)@, *x),
        ensures
            Self::valid(final(self)@),
            final(self)@ == Self::forgotten(old(self)@, *x),
    ;
}

/// The model after every element of `xs` is folded into `m`, in order.
pub open spec fn observed_all<X, S: SuffStat<X>>(m: S::V, xs: Seq<X>) -> S::V
    decreases xs.len(),
{
    if xs.len() == 0 {
        m
    } else {
        S::observed(observed_all::<X, S>(m, xs.drop_last()), xs.last())
    }
}

/// The model after every element of `xs` is taken out of `m`, in order.
pub open spec fn forgotten_all<X, S: SuffStat<X>>(m: S::V, xs: Seq<X>) -> S::V
    decreases xs.len(),
{
    if xs.len() == 0 {
        m
    } else {
        S::forgotten(forgotten_all::<X, S>(m, xs.drop_last()), xs.last())
    }
}

/// Each element of `xs` can be folded in after those before it.
pub open spec fn can_observe_all<X, S: SuffStat<X>>(m: S::V, xs: Seq<X>) -> bool {
    forall|i: int|
        0 <= i < xs.len() ==> #[trigger] S::can_observe(
            observed_all::<X, S>(m, xs.take(i)),
            xs[i],
        )
}

/// Each element of `xs` can be taken out after those before it.
pub open spec fn can_forget_all<X, S: SuffStat<X>>(m: S::V, xs: Seq<X>) -> bool {
    forall|i: int|
        0 <= i < xs.len() ==> #[trigger] S::can_forget(
            forgotten_all::<X, S>(m, xs.take(i)),
            xs[i],
        )
}

/// Folding whole slices of observations in and out, which every
/// accumulator offers.
pub trait SuffStatMany<X>: SuffStat<X> {
    /// Folds in every element of `xs`, in order.
    fn observe_many(&mut self, xs: &[X])
        requires
            Self::valid(old(self)@),
            can_observe_all::<X, Self>(old(self)@, xs@),
        ensures
            Self::valid(final(self)@),
            final(self)@ == observed_all::<X, Self>(old(self)@, xs@),
    {
        let ghost m0 = self@;
        let mut i: usize = 0;
        while i < xs.len()
            invariant
                i <= xs.len(),
                Self::valid(self@),
                self@ == observed_all::<X, Self>(m0, xs@.take(i as int)),
                can_observe_all::<X, Self>(m0, xs@),
            decreases xs.len() - i,
        {
            proof {
                assert(xs@.take(i + 1).drop_last() =~= xs@.take(i as int));
            }
            self.observe(&xs[i]);
            i += 1;
        }
        proof {
            assert(xs@.take(xs.len() as int) =~= xs@);
        }
    }

    /// Takes out every element of `xs`, in order.
    fn forget_many(&mut self, xs: &[X])
        requires
            Self::valid(old(self)@),
            can_forget_all::<X, Self>(old(self)@, xs@),
        ensures
            Self::valid(final(self)@),
            final(self)@ == forgotten_all::<X, Self>(old(self)@, xs@),
    {
        let ghost m0 = self@;
        let mut i: usize = 0;
        while i < xs.len()
            invariant
                i <= xs.len(),
                Self::valid(self@),
                self@ == forgotten_all::<X, Self>(m0, xs@.take(i as int)),
                can_forget_all::<X, Self>(m0, xs@),
            decreases xs.len() - i,
        {
            proof {
                assert(xs@.take(i + 1).drop_last() =~= xs@.take(i as int));
            }
            self.forget(&xs[i]);
            i += 1;
        }
        proof {
            assert(xs@.take(xs.len() as int) =~= xs@);
        }
    }
}

impl<X, S: SuffStat<X>> SuffStatMany<X> for S {

}

/// A likelihood family whose observations of type `X` reduce to an
/// accumulator of type `Stat`.
pub trait HasSuffStat<X> {
    type Stat: SuffStat<X>;

    /// An accumulator that has seen nothing.
    fn empty_suffstat(&self) -> Self::Stat;
}

/// Identifies the support of a distribution.
pub trait Support<X> {
    /// Whether `x` lies in the support.
    fn supports(&self, x: &X) -> bool;
}

/// Defines the mean of a distribution, where it exists.
pub trait Mean<X> {
    fn mean(&self) -> Option<X>;
}

/// Defines the median of a distribution, where it exists.
pub trait Median<X> {
    fn median(&self) -> Option<X>;
}

/// Defines the mode of a distribution, where it exists.
pub trait Mode<X> {
    fn mode(&self) -> Option<X>;
}

/// Defines the variance of a distribution, where it exists.
pub trait Variance<X> {
    fn variance(&self) -> Option<X>;
}

} // verus!
