use rv::data::{BernoulliSuffStat, CategoricalDatum, CategoricalSuffStat};
use rv::traits::{SuffStat, SuffStatMany};

#[test]
fn bernoulli_stat_starts_empty() {
    let stat = BernoulliSuffStat::new();
    assert_eq!(stat.n(), 0);
    assert_eq!(stat.k(), 0);
}

#[test]
fn bernoulli_stat_counts_trials_and_successes() {
    let mut stat = BernoulliSuffStat::new();
    stat.observe(&true);
    stat.observe(&false);
    stat.observe(&true);
    assert_eq!(stat.n(), 3);
    assert_eq!(stat.k(), 2);
}

#[test]
fn bernoulli_observe_then_forget_restores_state() {
    let mut stat = BernoulliSuffStat::new();
    stat.observe_many(&[true, false, false]);
    let before = stat;
    for x in [true, false] {
        stat.observe(&x);
        assert_ne!(stat, before);
        stat.forget(&x);
        assert_eq!(stat, before);
    }
}

#[test]
fn bernoulli_observe_many_ignores_order() {
    let xs = vec![true, false, true, true, false, true, true];
    let mut ys = xs.clone();
    ys.reverse();
    let mut a = BernoulliSuffStat::new();
    let mut b = BernoulliSuffStat::new();
    a.observe_many(&xs);
    b.observe_many(&ys);
    assert_eq!(a, b);
    assert_eq!(a.n(), 7);
    assert_eq!(a.k(), 5);
}

#[test]
fn bernoulli_observe_many_adds_over_parts() {
    let xs = [true, false, true, true, false];
    let mut whole = BernoulliSuffStat::new();
    whole.observe_many(&xs);
    let mut parts = BernoulliSuffStat::new();
    parts.observe_many(&xs[..2]);
    parts.observe_many(&xs[2..]);
    assert_eq!(whole, parts);
}

#[test]
fn bernoulli_forget_many_undoes_observe_many() {
    let mut stat = BernoulliSuffStat::new();
    stat.observe(&true);
    let before = stat;
    stat.observe_many(&[false, true, true]);
    assert_eq!(stat.n(), 4);
    assert_eq!(stat.k(), 3);
    stat.forget_many(&[true, false, true]);
    assert_eq!(stat, before);
}

#[test]
fn categorical_stat_starts_empty() {
    let stat = CategoricalSuffStat::new(4);
    assert_eq!(stat.n(), 0);
    assert_eq!(stat.counts(), &vec![0, 0, 0, 0]);
}

#[test]
fn categorical_stat_counts_each_category() {
    let mut stat = CategoricalSuffStat::new(3);
    stat.observe_many(&[0_usize, 2, 2, 1, 2]);
    assert_eq!(stat.n(), 5);
    assert_eq!(stat.counts(), &vec![1, 1, 3]);
}

#[test]
fn categorical_stat_takes_small_integer_data() {
    let mut stat = CategoricalSuffStat::new(3);
    stat.observe(&2_u8);
    stat.observe(&1_u16);
    stat.observe(&2_u32);
    stat.observe(&true);
    assert_eq!(stat.n(), 4);
    assert_eq!(stat.counts(), &vec![0, 2, 2]);
}

#[test]
fn categorical_observe_then_forget_restores_state() {
    let mut stat = CategoricalSuffStat::new(3);
    stat.observe_many(&[1_usize, 1, 0]);
    let before = stat.clone();
    stat.observe(&2_usize);
    assert_eq!(stat.counts(), &vec![1, 2, 1]);
    stat.forget(&2_usize);
    assert_eq!(stat, before);
    assert_eq!(stat.n(), 3);
    assert_eq!(stat.counts(), &vec![1, 2, 0]);
}

#[test]
fn categorical_observe_many_ignores_order() {
    let xs: Vec<u8> = vec![3, 0, 1, 3, 3, 2, 0];
    let mut ys = xs.clone();
    ys.reverse();
    let mut a = CategoricalSuffStat::new(4);
    let mut b = CategoricalSuffStat::new(4);
    a.observe_many(&xs);
    b.observe_many(&ys);
    assert_eq!(a, b);
    assert_eq!(a.counts(), &vec![2, 1, 1, 3]);
}

#[test]
fn categorical_forget_many_undoes_observe_many() {
    let mut stat = CategoricalSuffStat::new(2);
    stat.observe_many(&[false, true, true]);
    stat.forget_many(&[true, false]);
    assert_eq!(stat.n(), 1);
    assert_eq!(stat.counts(), &vec![0, 1]);
}

#[test]
fn categorical_datum_round_trips() {
    assert_eq!(true.into_usize(), 1);
    assert_eq!(false.into_usize(), 0);
    assert!(bool::from_usize(1));
    assert!(!bool::from_usize(0));
    assert_eq!(7_u8.into_usize(), 7);
    assert_eq!(u8::from_usize(255), 255_u8);
    assert_eq!(u16::from_usize(300), 300_u16);
    assert_eq!(70_000_u32.into_usize(), 70_000);
    assert_eq!(u32::from_usize(70_000), 70_000_u32);
    assert_eq!(usize::from_usize(12), 12);
    assert_eq!(12_usize.into_usize(), 12);
}
