use rv::data::{extract_stat_then, BernoulliSuffStat, CategoricalSuffStat, DataOrSuffStat};
use rv::traits::{SuffStat, SuffStatMany};

#[test]
fn data_view_reports_its_variant() {
    let xs = vec![true, false];
    let stat = BernoulliSuffStat::new();
    let data: DataOrSuffStat<bool, BernoulliSuffStat> = DataOrSuffStat::Data(&xs);
    let suff: DataOrSuffStat<bool, BernoulliSuffStat> = DataOrSuffStat::SuffStat(&stat);
    let none: DataOrSuffStat<bool, BernoulliSuffStat> = DataOrSuffStat::Empty;
    assert!(data.is_data() && !data.is_suffstat() && !data.is_none());
    assert!(!suff.is_data() && suff.is_suffstat() && !suff.is_none());
    assert!(!none.is_data() && !none.is_suffstat() && none.is_none());
}

#[test]
fn data_view_counts_observations() {
    let xs = vec![true, false, true];
    let mut stat = BernoulliSuffStat::new();
    stat.observe_many(&[false, false]);
    let data: DataOrSuffStat<bool, BernoulliSuffStat> = DataOrSuffStat::Data(&xs);
    let suff: DataOrSuffStat<bool, BernoulliSuffStat> = DataOrSuffStat::SuffStat(&stat);
    let none: DataOrSuffStat<bool, BernoulliSuffStat> = DataOrSuffStat::Empty;
    assert_eq!(data.n(), 3);
    assert_eq!(suff.n(), 2);
    assert_eq!(none.n(), 0);
}

#[test]
fn extract_reduces_raw_data_in_a_fresh_stat() {
    let xs = vec![true, false, true, true];
    let data: DataOrSuffStat<bool, BernoulliSuffStat> = DataOrSuffStat::Data(&xs);
    let (n, k) = extract_stat_then(&data, BernoulliSuffStat::new, |s: &BernoulliSuffStat| {
        (s.n(), s.k())
    });
    assert_eq!((n, k), (4, 3));
    assert_eq!(xs, vec![true, false, true, true]);
}

#[test]
fn extract_passes_a_held_stat_through() {
    let mut stat = CategoricalSuffStat::new(3);
    stat.observe_many(&[2_usize, 2, 0]);
    let data: DataOrSuffStat<usize, CategoricalSuffStat> = DataOrSuffStat::SuffStat(&stat);
    let same = extract_stat_then(&data, || CategoricalSuffStat::new(3), |s: &CategoricalSuffStat| {
        std::ptr::eq(s, &stat)
    });
    assert!(same);
}

#[test]
fn extract_gives_a_fresh_stat_for_no_data() {
    let none: DataOrSuffStat<u8, CategoricalSuffStat> = DataOrSuffStat::Empty;
    let counts = extract_stat_then(&none, || CategoricalSuffStat::new(2), |s: &CategoricalSuffStat| {
        (s.n(), s.counts().clone())
    });
    assert_eq!(counts, (0, vec![0, 0]));
}

#[test]
fn extract_agrees_with_observing_the_data() {
    let xs: Vec<u16> = vec![1, 0, 1, 1];
    let data: DataOrSuffStat<u16, CategoricalSuffStat> = DataOrSuffStat::Data(&xs);
    let reduced = extract_stat_then(&data, || CategoricalSuffStat::new(2), |s: &CategoricalSuffStat| s.clone());
    let mut direct = CategoricalSuffStat::new(2);
    for x in xs.iter() {
        direct.observe(x);
    }
    assert_eq!(reduced, direct);
    assert_eq!(reduced.counts(), &vec![1, 3]);
    assert_eq!(data.n(), reduced.n());
}
