//! Summary statistics.

use mxc_containment::order::sort;
use mxc_containment::stats::{blank_stats, compute_stats};
use mxc_containment::units::{Megabytes, Millis, Ratio};

fn ms(list: &[u64]) -> Vec<Millis> {
    list.iter().map(|n| Millis { nanos: n * 1_000_000 }).collect()
}

fn value(r: Ratio) -> f64 {
    let v = r.num as f64 / r.den as f64;
    if r.negative { -v } else { v }
}

#[test]
fn sort_orders_and_keeps_every_number() {
    assert_eq!(sort(&vec![3, 1, 2, 1]), vec![1, 1, 2, 3]);
    assert_eq!(sort(&vec![]), Vec::<u64>::new());
    assert_eq!(sort(&vec![u64::MAX, 0]), vec![0, u64::MAX]);
}

#[test]
fn one_duration_is_all_of_its_statistics() {
    let s = compute_stats(&ms(&[7]));
    assert_eq!(s.count, 1);
    assert_eq!(s.min_ms, Millis { nanos: 7_000_000 });
    assert_eq!(s.max_ms, Millis { nanos: 7_000_000 });
    assert_eq!(s.p95_ms, Millis { nanos: 7_000_000 });
    assert_eq!(value(s.mean_ms), 7.0);
    assert_eq!(value(s.median_ms), 7.0);
    assert_eq!(s.variance_ns2.unwrap().num, 0);
}

#[test]
fn median_of_an_odd_number_is_the_middle() {
    let s = compute_stats(&ms(&[9, 1, 5]));
    assert_eq!(s.median_ms, Ratio { negative: false, num: 5_000_000, den: 1_000_000 });
    assert_eq!(s.mean_ms, Ratio { negative: false, num: 15_000_000, den: 3_000_000 });
}

#[test]
fn median_of_an_even_number_is_between_the_two_in_the_middle() {
    let s = compute_stats(&ms(&[4, 1, 2, 9]));
    assert_eq!(s.median_ms, Ratio { negative: false, num: 6_000_000, den: 2_000_000 });
    assert_eq!(value(s.median_ms), 3.0);
    assert_eq!(value(s.mean_ms), 4.0);
}

#[test]
fn percentile_is_rounded_up_and_stays_in_the_list() {
    let twenty: Vec<u64> = (1..=20).collect();
    assert_eq!(compute_stats(&ms(&twenty)).p95_ms.nanos, 20_000_000);
    let hundred: Vec<u64> = (1..=100).rev().collect();
    assert_eq!(compute_stats(&ms(&hundred)).p95_ms.nanos, 96_000_000);
    let forty_one: Vec<u64> = (1..=41).collect();
    assert_eq!(compute_stats(&ms(&forty_one)).p95_ms.nanos, 40_000_000);
}

#[test]
fn percentile_is_where_the_floating_point_formula_puts_it() {
    for n in 1..3000usize {
        let list: Vec<Millis> = (0..n).map(|i| Millis { nanos: i as u64 }).collect();
        let rank = ((n as f64) * 0.95).ceil() as usize;
        assert_eq!(compute_stats(&list).p95_ms.nanos, rank.min(n - 1) as u64);
    }
}

#[test]
fn variance_is_the_mean_squared_deviation() {
    let s = compute_stats(&ms(&[2, 4, 4, 4, 5, 5, 7, 9]));
    assert_eq!(value(s.variance_ns2.unwrap()), 4.0e12);
    assert_eq!(value(s.variance_ns2.unwrap()).sqrt() / 1.0e6, 2.0);
}

#[test]
fn variance_that_does_not_fit_is_left_out() {
    let s = compute_stats(&vec![Millis { nanos: u64::MAX }, Millis { nanos: u64::MAX }]);
    assert!(s.variance_ns2.is_none());
    assert_eq!(s.max_ms.nanos, u64::MAX);
    let s = compute_stats(&vec![Millis { nanos: u64::MAX }]);
    assert_eq!(s.variance_ns2.unwrap().num, 0);
}

#[test]
fn summary_ignores_order() {
    let a = compute_stats(&ms(&[5, 3, 8, 1, 9, 2]));
    let b = compute_stats(&ms(&[1, 2, 3, 5, 8, 9]));
    assert_eq!(a.median_ms, b.median_ms);
    assert_eq!(a.mean_ms, b.mean_ms);
    assert_eq!(a.p95_ms, b.p95_ms);
    assert_eq!(a.variance_ns2, b.variance_ns2);
}

#[test]
fn summary_is_in_order() {
    let s = compute_stats(&ms(&[5, 3, 8, 1, 9, 2]));
    let min = s.min_ms.nanos as f64 / 1.0e6;
    let p95 = s.p95_ms.nanos as f64 / 1.0e6;
    let max = s.max_ms.nanos as f64 / 1.0e6;
    assert!(min <= value(s.median_ms) && value(s.median_ms) <= p95 && p95 <= max);
    assert!(min <= value(s.mean_ms) && value(s.mean_ms) <= max);
}

#[test]
fn blank_statistics_are_zero() {
    let s = blank_stats();
    assert_eq!(s.count, 0);
    assert_eq!(s.min_ms.nanos + s.max_ms.nanos + s.p95_ms.nanos, 0);
    assert_eq!(s.mean_ms, Ratio::zero());
    assert_eq!(s.median_ms, Ratio::zero());
    assert_eq!(s.variance_ns2, Some(Ratio::zero()));
}

#[test]
fn quotients_keep_their_sign() {
    assert_eq!(Ratio::of(3, 5, 7), Ratio { negative: true, num: 2, den: 7 });
    assert_eq!(Ratio::of(5, 3, 7), Ratio { negative: false, num: 2, den: 7 });
    assert_eq!(Ratio::of(5, 5, 7), Ratio { negative: false, num: 0, den: 7 });
    assert_eq!(Megabytes { bytes: 1 }, Megabytes { bytes: 1 });
}
