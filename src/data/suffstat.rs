//! Sufficient statistics of discrete likelihoods.
use vstd::prelude::*;

use crate::data::CategoricalDatum;
use crate::laws::lemma_observe_many_count;
use crate::traits::{can_observe_all, observed_all, SuffStat};

verus! {

/// The sufficient statistic of Bernoulli trials: the number of trials and the
/// number of successes among them.
#[derive(Debug, Clone, Copy, PartialEq, Eq, Structural)]
pub struct BernoulliSuffStat {
    n: usize,
    k: usize,
}

impl View for BernoulliSuffStat {
    /// (trials, successes)
    type V = (nat, nat);

    closed spec fn view(&self) -> (nat, nat) {
        (self.n as nat, self.k as nat)
    }
}

impl BernoulliSuffStat {
    /// An accumulator that has seen no trial.
    pub fn new() -> (r: Self)
        ensures
            r@ == (0nat, 0nat),
    {
        BernoulliSuffStat { n: 0, k: 0 }
    }

    /// An accumulator holding `m` has room for every trial of `xs` as long
    /// as the number of trials stays within `usize`.
    pub proof fn lemma_room_for(m: (nat, nat), xs: Seq<bool>)
        requires
            m.0 + xs.len() <= usize::MAX,
        ensures
            can_observe_all::<bool, BernoulliSuffStat>(m, xs),
    {
        assert forall|i: int| 0 <= i < xs.len() implies #[trigger] BernoulliSuffStat::can_observe(
            observed_all::<bool, BernoulliSuffStat>(m, xs.take(i)),
            xs[i],
        ) by {
            lemma_observe_many_count::<bool, BernoulliSuffStat>(m, xs.take(i));
        }
    }

    /// The number of trials.
    pub fn n(&self) -> (r: usize)
        ensures
            r == self@.0,
    {
        self.n
    }

    /// The number of successes.
    pub fn k(&self) -> (r: usize)
        ensures
            r == self@.1,
    {
        self.k
    }
}

impl SuffStat<bool> for BernoulliSuffStat {
    open spec fn valid(m: (nat, nat)) -> bool {
        m.1 <= m.0
    }

    open spec fn count(m: (nat, nat)) -> nat {
        m.0
    }

    open spec fn observed(m: (nat, nat), x: bool) -> (nat, nat) {
        (m.0 + 1, if x { m.1 + 1 } else { m.1 })
    }

    open spec fn forgotten(m: (nat, nat), x: bool) -> (nat, nat) {
        ((m.0 - 1) as nat, if x { (m.1 - 1) as nat } else { m.1 })
    }

    open spec fn can_observe(m: (nat, nat), x: bool) -> bool {
        m.0 < usize::MAX
    }

    open spec fn can_forget(m: (nat, nat), x: bool) -> bool {
        if x {
            m.1 > 0
        } else {
            m.1 < m.0
        }
    }

    proof fn lemma_forget_undoes_observe(m: (nat, nat), x: bool) {
    }

    proof fn lemma_observe_counts_one(m: (nat, nat), x: bool) {
    }

    proof fn lemma_observe_commutes(m: (nat, nat), x: bool, y: bool) {
    }

    fn n(&self) -> (r: usize) {
        self.n
    }

    fn observe(&mut self, x: &bool) {
        self.n = self.n + 1;
        if *x {
            self.k = self.k + 1;
        }
    }

    fn forget(&mut self, x: &bool) {
        self.n = self.n - 1;
        if *x {
            self.k = self.k - 1;
        }
    }
}

/// The sum of a sequence of counts.
pub open spec fn total(s: Seq<nat>) -> nat
    decreases s.len(),
{
    if s.len() == 0 {
        0
    } else {
        total(s.drop_last()) + s.last()
    }
}

/// `s` with the count at `i` raised by one.
pub open spec fn bumped(s: Seq<nat>, i: nat) -> Seq<nat> {
    Seq::new(s.len(), |j: int| if j == i { s[j] + 1 } else { s[j] })
}

/// `s` with the count at `i` lowered by one.
pub open spec fn dropped(s: Seq<nat>, i: nat) -> Seq<nat> {
    Seq::new(s.len(), |j: int| if j == i { (s[j] - 1) as nat } else { s[j] })
}

/// Changing one count changes the total by as much.
proof fn lemma_total_change(s: Seq<nat>, t: Seq<nat>, i: int)
    requires
        s.len() == t.len(),
        0 <= i < s.len(),
        forall|j: int| 0 <= j < s.len() && j != i ==> s[j] == t[j],
    ensures
        total(t) - total(s) == t[i] - s[i],
    decreases s.len(),
{
    if i == s.len() - 1 {
        assert(s.drop_last() =~= t.drop_last());
    } else {
        lemma_total_change(s.drop_last(), t.drop_last(), i);
    }
}

/// Counts that are all zero add up to zero.
proof fn lemma_total_zeros(k: nat)
    ensures
        total(Seq::new(k, |i: int| 0nat)) == 0,
    decreases k,
{
    if k > 0 {
        assert(Seq::new(k, |i: int| 0nat).drop_last() =~= Seq::new((k - 1) as nat, |i: int| 0nat));
        lemma_total_zeros((k - 1) as nat);
    }
}

/// No count exceeds the total.
proof fn lemma_count_le_total(s: Seq<nat>, i: int)
    requires
        0 <= i < s.len(),
    ensures
        s[i] <= total(s),
    decreases s.len(),
{
    if i < s.len() - 1 {
        lemma_count_le_total(s.drop_last(), i);
    }
}

/// The sufficient statistic of categorical data: the number of observations
/// and how many fell in each category.
#[derive(Debug, Clone, PartialEq, Eq)]
pub struct CategoricalSuffStat {
    n: usize,
    counts: Vec<usize>,
}

impl View for CategoricalSuffStat {
    /// (observations, count of each category)
    type V = (nat, Seq<nat>);

    closed spec fn view(&self) -> (nat, Seq<nat>) {
        (self.n as nat, self.counts@.map_values(|c: usize| c as nat))
    }
}

impl CategoricalSuffStat {
    /// An accumulator over `k` categories that has seen nothing.
    pub fn new(k: usize) -> (r: Self)
        ensures
            r@ == (0nat, Seq::new(k as nat, |i: int| 0nat)),
            total(r@.1) == 0,
    {
        let mut counts: Vec<usize> = Vec::new();
        let mut i: usize = 0;
        while i < k
            invariant
                i <= k,
                counts@ == Seq::new(i as nat, |j: int| 0usize),
            decreases k - i,
        {
            counts.push(0);
            i += 1;
            proof {
                assert(counts@ =~= Seq::new(i as nat, |j: int| 0usize));
            }
        }
        let r = CategoricalSuffStat { n: 0, counts };
        proof {
            assert(r@.1 =~= Seq::new(k as nat, |i: int| 0nat));
            lemma_total_zeros(k as nat);
        }
        r
    }

    /// Folding in never changes the number of categories.
    proof fn lemma_observed_all_keeps_categories<X: CategoricalDatum>(m: (nat, Seq<nat>), xs: Seq<X>)
        ensures
            observed_all::<X, CategoricalSuffStat>(m, xs).1.len() == m.1.len(),
        decreases xs.len(),
    {
        if xs.len() > 0 {
            Self::lemma_observed_all_keeps_categories(m, xs.drop_last());
        }
    }

    /// An accumulator holding `m` has room for every value of `xs` as long
    /// as each falls in one of its categories and the number of observations
    /// stays within `usize`.
    pub proof fn lemma_room_for<X: CategoricalDatum>(m: (nat, Seq<nat>), xs: Seq<X>)
        requires
            m.0 + xs.len() <= usize::MAX,
            forall|i: int| 0 <= i < xs.len() ==> #[trigger] xs[i].category() < m.1.len(),
        ensures
            can_observe_all::<X, CategoricalSuffStat>(m, xs),
    {
        assert forall|i: int| 0 <= i < xs.len() implies #[trigger] CategoricalSuffStat::can_observe(
            observed_all::<X, CategoricalSuffStat>(m, xs.take(i)),
            xs[i],
        ) by {
            lemma_observe_many_count::<X, CategoricalSuffStat>(m, xs.take(i));
            Self::lemma_observed_all_keeps_categories(m, xs.take(i));
        }
    }

    /// The number of observations.
    pub fn n(&self) -> (r: usize)
        ensures
            r == self@.0,
    {
        self.n
    }

    /// How many observations fell in each category.
    pub fn counts(&self) -> (r: &Vec<usize>)
        ensures
            r@.map_values(|c: usize| c as nat) == self@.1,
    {
        &self.counts
    }
}

impl<X: CategoricalDatum> SuffStat<X> for CategoricalSuffStat {
    open spec fn valid(m: (nat, Seq<nat>)) -> bool {
        total(m.1) == m.0
    }

    open spec fn count(m: (nat, Seq<nat>)) -> nat {
        m.0
    }

    open spec fn observed(m: (nat, Seq<nat>), x: X) -> (nat, Seq<nat>) {
        (m.0 + 1, bumped(m.1, x.category()))
    }

    open spec fn forgotten(m: (nat, Seq<nat>), x: X) -> (nat, Seq<nat>) {
        ((m.0 - 1) as nat, dropped(m.1, x.category()))
    }

    open spec fn can_observe(m: (nat, Seq<nat>), x: X) -> bool {
        m.0 < usize::MAX && x.category() < m.1.len()
    }

    open spec fn can_forget(m: (nat, Seq<nat>), x: X) -> bool {
        x.category() < m.1.len() && m.1[x.category() as int] > 0
    }

    proof fn lemma_forget_undoes_observe(m: (nat, Seq<nat>), x: X) {
        let i = x.category();
        lemma_total_change(m.1, bumped(m.1, i), i as int);
        assert(dropped(bumped(m.1, i), i) =~= m.1);
    }

    proof fn lemma_observe_counts_one(m: (nat, Seq<nat>), x: X) {
    }

    proof fn lemma_observe_commutes(m: (nat, Seq<nat>), x: X, y: X) {
        let (i, j) = (x.category(), y.category());
        assert(bumped(bumped(m.1, i), j) =~= bumped(bumped(m.1, j), i));
    }

    fn n(&self) -> (r: usize) {
        self.n
    }

    fn observe(&mut self, x: &X) {
        let i = x.into_usize();
        proof {
            lemma_count_le_total(self@.1, i as int);
        }
        let c = self.counts[i];
        self.counts.set(i, c + 1);
        self.n = self.n + 1;
        proof {
            assert(self@.1 =~= bumped(old(self)@.1, i as nat));
            lemma_total_change(old(self)@.1, self@.1, i as int);
        }
    }

    fn forget(&mut self, x: &X) {
        let i = x.into_usize();
        proof {
            lemma_count_le_total(self@.1, i as int);
        }
        let c = self.counts[i];
        self.counts.set(i, c - 1);
        self.n = self.n - 1;
        proof {
            assert(self@.1 =~= dropped(old(self)@.1, i as nat));
            lemma_total_change(old(self)@.1, self@.1, i as int);
        }
    }
}

} // verus!
