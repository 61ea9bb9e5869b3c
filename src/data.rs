//! Data that is either raw or already reduced to a sufficient statistic.
use vstd::prelude::*;

use crate::traits::{can_observe_all, observed_all, SuffStat, SuffStatMany};

pub mod suffstat;

pub use suffstat::BernoulliSuffStat;
pub use suffstat::CategoricalSuffStat;

verus! {

/// A value that stands for one of finitely many categories, numbered from 0.
pub trait CategoricalDatum: Sized + Sync + Copy {
    /// The index of the category this value stands for.
    spec fn category(self) -> nat;

    /// Whether some value of this type stands for category `n`.
    spec fn has_category(n: nat) -> bool;

    /// The index of the category.
    fn into_usize(&self) -> (r: usize)
        ensures
            r == self.category(),
    ;

    /// The value that stands for category `n`.
    fn from_usize(n: usize) -> (r: Self)
        requires
            Self::has_category(n as nat),
        ensures
            r.category() == n,
    ;
}

impl CategoricalDatum for usize {
    open spec fn category(self) -> nat {
        self as nat
    }

    open spec fn has_category(n: nat) -> bool {
        n <= usize::MAX
    }

    fn into_usize(&self) -> (r: usize) {
        *self
    }

    fn from_usize(n: usize) -> (r: Self) {
        n
    }
}

impl CategoricalDatum for bool {
    open spec fn category(self) -> nat {
        if self {
            1
        } else {
            0
        }
    }

    open spec fn has_category(n: nat) -> bool {
        n <= 1
    }

    fn into_usize(&self) -> (r: usize) {
        if *self {
            1
        } else {
            0
        }
    }

    fn from_usize(n: usize) -> (r: Self) {
        n == 1
    }
}

impl CategoricalDatum for u8 {
    open spec fn category(self) -> nat {
        self as nat
    }

    open spec fn has_category(n: nat) -> bool {
        n <= u8::MAX
    }

    fn into_usize(&self) -> (r: usize) {
        *self as usize
    }

    fn from_usize(n: usize) -> (r: Self) {
        n as u8
    }
}

impl CategoricalDatum for u16 {
    open spec fn category(self) -> nat {
        self as nat
    }

    open spec fn has_category(n: nat) -> bool {
        n <= u16::MAX
    }

    fn into_usize(&self) -> (r: usize) {
        *self as usize
    }

    fn from_usize(n: usize) -> (r: Self) {
        n as u16
    }
}

impl CategoricalDatum for u32 {
    open spec fn category(self) -> nat {
        self as nat
    }

    open spec fn has_category(n: nat) -> bool {
        n <= u32::MAX
    }

    fn into_usize(&self) -> (r: usize) {
        *self as usize
    }

    fn from_usize(n: usize) -> (r: Self) {
        n as u32
    }
}

/// Observations of type `X`: a borrowed sequence of them, a borrowed
/// accumulator of type `S` that has already folded them in, or nothing.
#[derive(Debug, Clone, PartialEq)]
pub enum DataOrSuffStat<'a, X, S> {
    /// A `Vec` of raw data
    Data(&'a Vec<X>),
    /// A sufficient statistic
    SuffStat(&'a S),
    /// No data
    Empty,
}

impl<'a, X, S> DataOrSuffStat<'a, X, S> {
    /// Whether the view holds raw data.
    pub fn is_data(&self) -> (r: bool)
        ensures
            r == (self is Data),
    {
        match self {
            DataOrSuffStat::Data(..) => true,
            _ => false,
        }
    }

    /// Whether the view holds a sufficient statistic.
    pub fn is_suffstat(&self) -> (r: bool)
        ensures
            r == (self is SuffStat),
    {
        match self {
            DataOrSuffStat::SuffStat(..) => true,
            _ => false,
        }
    }

    /// Whether the view holds nothing.
    pub fn is_none(&self) -> (r: bool)
        ensures
            r == (self is Empty),
    {
        match self {
            DataOrSuffStat::Empty => true,
            _ => false,
        }
    }
}

impl<'a, X, S: SuffStat<X>> DataOrSuffStat<'a, X, S> {
    /// The number of observations the view stands for.
    pub open spec fn count(&self) -> nat {
        match self {
            DataOrSuffStat::Data(xs) => xs@.len(),
            DataOrSuffStat::SuffStat(s) => S::count(s@),
            DataOrSuffStat::Empty => 0,
        }
    }

    /// The model of the accumulator that the view reduces to, where `empty`
    /// is the model of an accumulator that has seen nothing.
    pub open spec fn reduced(&self, empty: S::V) -> S::V {
        match self {
            DataOrSuffStat::Data(xs) => observed_all::<X, S>(empty, xs@),
            DataOrSuffStat::SuffStat(s) => s@,
            DataOrSuffStat::Empty => empty,
        }
    }

    /// A held accumulator is in a state that accumulators can reach.
    pub open spec fn well_formed(&self) -> bool {
        match self {
            DataOrSuffStat::SuffStat(s) => S::valid(s@),
            _ => true,
        }
    }

    /// An accumulator whose model is `empty` can take in the raw data that
    /// the view holds, if any.
    pub open spec fn reducible_from(&self, empty: S::V) -> bool {
        &&& S::valid(empty)
        &&& match self {
            DataOrSuffStat::Data(xs) => can_observe_all::<X, S>(empty, xs@),
            _ => true,
        }
    }

    /// The number of observations.
    pub fn n(&self) -> (r: usize)
        ensures
            r == self.count(),
    {
        match self {
            DataOrSuffStat::Data(xs) => xs.len(),
            DataOrSuffStat::SuffStat(s) => s.n(),
            DataOrSuffStat::Empty => 0,
        }
    }
}

/// Hands `f_then` the sufficient statistic of the data in `x`.
///
/// A held accumulator is passed on by reference; raw data is folded, in order,
/// into a fresh accumulator from `f_empty`; no data gives a fresh accumulator.
/// Nothing that `x` borrows is changed.
pub fn extract_stat_then<'a, X, S, Y, F0, F1>(
    x: &DataOrSuffStat<'a, X, S>,
    f_empty: F0,
    f_then: F1,
) -> (r: Y) where S: SuffStat<X>, F0: FnOnce() -> S, F1: FnOnce(&S) -> Y
    requires
        x.well_formed(),
        f_empty.requires(()),
        forall|e: S| #[trigger] f_empty.ensures((), e) ==> x.reducible_from(e@),
        forall|s: &S| S::valid(s@) ==> #[trigger] f_then.requires((s,)),
    ensures
        match x {
            DataOrSuffStat::SuffStat(s) => f_then.ensures((*s,), r),
            _ => exists|e: S, s: S|
                #[trigger] f_empty.ensures((), e) && s@ == x.reduced(e@) && #[trigger] f_then.ensures(
                    (&s,),
                    r,
                ),
        },
{
    match x {
        DataOrSuffStat::SuffStat(s) => f_then(s),
        DataOrSuffStat::Data(xs) => {
            let mut stat = f_empty();
            let ghost e = stat;
            stat.observe_many(xs.as_slice());
            let r = f_then(&stat);
            assert(f_empty.ensures((), e) && stat@ == x.reduced(e@) && f_then.ensures((&stat,), r));
            r
        },
        DataOrSuffStat::Empty => {
            let stat = f_empty();
            let r = f_then(&stat);
            assert(f_empty.ensures((), stat) && stat@ == x.reduced(stat@) && f_then.ensures((&stat,), r));
            r
        },
    }
}

} // verus!
