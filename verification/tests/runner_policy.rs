//! The runner's partitioning and pool-growth policy.

use scrape_ct_log::error::Error;
use scrape_ct_log::runner::{compute_last_entry, count_fetched, Config, RunCtl, RunStats};

#[test]
fn last_entry_is_bounded_by_the_tree() {
    assert_eq!(19, compute_last_entry(20, 0, u64::MAX).unwrap());
}

#[test]
fn last_entry_is_bounded_by_offset_plus_limit() {
    assert_eq!(14, compute_last_entry(20, 5, 10).unwrap());
}

#[test]
fn last_entry_of_an_empty_log_is_an_overflow() {
    assert!(matches!(compute_last_entry(0, 0, 5), Err(Error::ArithmeticOverflow(_))));
}

#[test]
fn last_entry_with_zero_limit_and_zero_offset_is_an_overflow() {
    assert!(matches!(compute_last_entry(20, 0, 0), Err(Error::ArithmeticOverflow(_))));
}

#[test]
fn small_ranges_fit_one_batch() {
    let mut ctl = RunCtl::new(0, 19, 4);
    assert!(ctl.work_remains());
    let b = ctl.next_batch().unwrap();
    assert_eq!((0, 19), b);
    assert!(!ctl.work_remains());
}

#[test]
fn large_ranges_are_cut_at_the_maximum_batch_size() {
    let mut ctl = RunCtl::new(0, 99_999, 2);
    assert_eq!((0, 9_999), ctl.next_batch().unwrap());
    assert_eq!((10_000, 19_999), ctl.next_batch().unwrap());
}

#[test]
fn batches_shrink_as_work_drains_but_not_below_the_minimum() {
    let mut ctl = RunCtl::new(0, 999, 8);
    // 1000 remaining over 8 fetchers is 125 per batch.
    assert_eq!((0, 124), ctl.next_batch().unwrap());
    // 875 remaining over 8 is 109.
    assert_eq!((125, 233), ctl.next_batch().unwrap());
    // 766 remaining over 8 is 95, clamped up to 100.
    assert_eq!((234, 333), ctl.next_batch().unwrap());
}

#[test]
fn offset_and_limit_partition_exactly() {
    let last = compute_last_entry(20, 5, 10).unwrap();
    let mut ctl = RunCtl::new(5, last, 1);
    let b = ctl.next_batch().unwrap();
    assert_eq!((5, 14), b);
    assert!(!ctl.work_remains());
}

#[test]
fn growth_needs_a_run_of_successes_past_a_rising_bar() {
    let mut ctl = RunCtl::new(0, 99_999, 3);
    let first = ctl.boot_fetcher().unwrap();
    assert_eq!((0, 9_999), first);
    // The bar starts at 5: five successes stay below it.
    for _ in 0..5 {
        assert!(ctl.success().unwrap().is_none());
    }
    // The sixth clears it and spawns a second fetcher with the next batch.
    let grown = ctl.success().unwrap();
    assert_eq!(Some((10_000, 19_999)), grown);
    // The bar has risen to 10 and the count restarted.
    for _ in 0..10 {
        assert!(ctl.success().unwrap().is_none());
    }
    assert!(ctl.success().unwrap().is_some());
}

#[test]
fn any_failure_breaks_the_run_of_successes() {
    let mut ctl = RunCtl::new(0, 99_999, 2);
    ctl.boot_fetcher().unwrap();
    for _ in 0..5 {
        assert!(ctl.success().unwrap().is_none());
    }
    ctl.failure();
    // The count restarted, so the next success does not clear the bar.
    assert!(ctl.success().unwrap().is_none());
}

#[test]
fn completion_hands_the_worker_the_next_batch() {
    let mut ctl = RunCtl::new(0, 99_999, 2);
    ctl.boot_fetcher().unwrap();
    let b = ctl.complete(0).unwrap();
    assert_eq!((10_000, 19_999), b);
}

#[test]
fn completion_from_an_unknown_worker_is_an_internal_error() {
    let mut ctl = RunCtl::new(0, 99_999, 2);
    ctl.boot_fetcher().unwrap();
    assert!(matches!(ctl.complete(5), Err(Error::InternalError(_))));
}

#[test]
fn pool_growth_stops_at_the_bound() {
    let mut ctl = RunCtl::new(0, 99_999, 1);
    ctl.boot_fetcher().unwrap();
    for _ in 0..20 {
        // The pool is already at its bound of one, so no success spawns.
        assert!(ctl.success().unwrap().is_none());
    }
}

#[test]
fn fetched_count_is_the_size_of_the_range() {
    assert_eq!(10, count_fetched(5, 14));
    assert_eq!(1, count_fetched(0, 0));
}

#[test]
fn stats_start_at_zero() {
    let s = RunStats::new();
    assert_eq!(0, s.fetched_count);
    assert_eq!(0, s.sth_retrieved_at);
    assert_eq!(0, s.sth_timestamp);
    assert_eq!(0, s.sth_tree_size);
    let d = RunStats::default();
    assert_eq!(0, d.fetched_count);
}

#[test]
fn config_builders_set_their_fields() {
    let c = Config::new("https://log.example/".to_string())
        .user_agent("agent".to_string())
        .limit(7)
        .offset(3)
        .initial_fetchers(2)
        .max_fetchers(9);
    assert_eq!("https://log.example/", c.log_url);
    assert_eq!("agent", c.user_agent);
    assert_eq!(7, c.limit);
    assert_eq!(3, c.offset);
    assert_eq!(2, c.initial_fetchers);
    assert_eq!(Some(9), c.max_fetchers);
}

#[test]
fn config_defaults_match_a_fresh_scrape() {
    let c = Config::new("u".to_string());
    assert_eq!(0, c.limit);
    assert_eq!(0, c.offset);
    assert_eq!(1, c.initial_fetchers);
    assert!(c.max_fetchers.is_none());
    assert_eq!("", c.user_agent);
}
