use zeroclaw_fleet::calendar::{
    chrono_like_now, is_leap, timestamp, timestamp_of, unix_to_ymdhms, DAYS_LIMIT,
};
use zeroclaw_fleet::clock;
use zeroclaw_fleet::cost_poller::{
    can_roll_up, cost_url, fleet_rollup, new_cache, poll_interval, record_failure, record_success,
    summary_part, CostCache, CostSummary,
};

fn summary(daily: f64, tokens: u64) -> CostSummary<f64, ()> {
    CostSummary {
        daily_cost_usd: daily,
        total_tokens: tokens,
        ..CostSummary::default()
    }
}

fn plus(a: &f64, b: &f64) -> f64 {
    *a + *b
}

#[test]
fn cost_summary_default_is_zero() {
    let c = CostSummary::<f64, ()>::default();
    assert_eq!(c.session_cost_usd, 0.0);
    assert_eq!(c.total_tokens, 0);
}

#[test]
fn rollup_sums_across_claws_and_marks_stale_count() {
    let mut cache: CostCache<f64, ()> = new_cache();
    record_success(&mut cache, "a", summary(1.0, 100), "x");
    record_success(&mut cache, "b", summary(2.5, 200), "x");
    record_failure(&mut cache, "b", "timeout", "y", CostSummary::default());
    assert!(can_roll_up(&cache));
    let r = fleet_rollup(&cache, 0.0, plus);
    assert_eq!(r.claws, 2);
    assert_eq!(r.stale, 1);
    assert!((r.daily_cost_usd - 3.5).abs() < 1e-9);
    assert_eq!(r.total_tokens, 300);
    assert_eq!(r.request_count, 0);
}

#[test]
fn failed_poll_keeps_the_old_summary() {
    let mut cache: CostCache<f64, ()> = new_cache();
    record_success(&mut cache, "a", summary(1.0, 100), "monday");
    record_failure(&mut cache, "a", "timeout", "tuesday", CostSummary::default());
    let a = cache.get("a").unwrap();
    assert_eq!(a.summary.total_tokens, 100);
    assert_eq!(a.fetched_at, "monday");
    assert_eq!(a.last_error.as_deref(), Some("timeout"));
    record_success(&mut cache, "a", summary(2.0, 200), "wednesday");
    let a = cache.get("a").unwrap();
    assert_eq!(a.summary.total_tokens, 200);
    assert_eq!(a.fetched_at, "wednesday");
    assert!(a.last_error.is_none());
}

#[test]
fn first_poll_that_fails_leaves_an_empty_summary() {
    let mut cache: CostCache<f64, ()> = new_cache();
    record_failure(&mut cache, "a", "refused", "monday", CostSummary::default());
    let a = cache.get("a").unwrap();
    assert_eq!(a.claw, "a");
    assert_eq!(a.summary.total_tokens, 0);
    assert_eq!(a.fetched_at, "monday");
    assert_eq!(a.last_error.as_deref(), Some("refused"));
}

#[test]
fn totals_that_do_not_fit_are_found_out() {
    let mut cache: CostCache<f64, ()> = new_cache();
    record_success(&mut cache, "a", summary(0.0, u64::MAX), "x");
    assert!(can_roll_up(&cache));
    record_success(&mut cache, "b", summary(0.0, 1), "x");
    assert!(!can_roll_up(&cache));
}

#[test]
fn rollup_of_no_claws_is_zero() {
    let cache: CostCache<f64, ()> = new_cache();
    let r = fleet_rollup(&cache, 0.0, plus);
    assert_eq!(r.claws, 0);
    assert_eq!(r.stale, 0);
    assert_eq!(r.session_cost_usd, 0.0);
}

#[test]
fn cost_report_may_be_wrapped() {
    assert_eq!(summary_part(Some("inner"), "whole"), "inner");
    assert_eq!(summary_part(None, "whole"), "whole");
    assert_eq!(cost_url("http://claw-a:42617"), "http://claw-a:42617/api/cost");
    assert_eq!(poll_interval(0), 5);
    assert_eq!(poll_interval(30), 30);
}

#[test]
fn unix_to_ymdhms_matches_known_epoch_anchors() {
    assert_eq!(unix_to_ymdhms(0), (1970, 1, 1, 0, 0, 0));
    let (y, m, d, _, _, _) = unix_to_ymdhms(1779066000);
    assert_eq!(y, 2026);
    assert_eq!(m, 5);
    assert!(d >= 17 && d <= 18);
}

#[test]
fn dates_follow_the_gregorian_calendar() {
    assert_eq!(unix_to_ymdhms(951_782_399), (2000, 2, 28, 23, 59, 59));
    assert_eq!(unix_to_ymdhms(951_782_400), (2000, 2, 29, 0, 0, 0));
    assert_eq!(unix_to_ymdhms(1_709_251_200), (2024, 3, 1, 0, 0, 0));
    assert_eq!(unix_to_ymdhms(4_107_542_400), (2100, 3, 1, 0, 0, 0));
    assert_eq!(unix_to_ymdhms(1_735_689_599), (2024, 12, 31, 23, 59, 59));
    assert!(is_leap(2000));
    assert!(!is_leap(1900));
    assert!(is_leap(2024));
    assert!(!is_leap(2026));
}

#[test]
fn timestamp_is_written_in_utc_with_milliseconds() {
    assert_eq!(timestamp(0, 0), "1970-01-01T00:00:00.000Z");
    assert_eq!(timestamp(951_782_399, 7_999_999), "2000-02-28T23:59:59.007Z");
    assert!(DAYS_LIMIT > 365 * 8000);
}

#[test]
fn timestamp_takes_years_of_more_digits() {
    assert_eq!(timestamp(253_402_300_799, 0), "9999-12-31T23:59:59.000Z");
    assert_eq!(timestamp(253_402_300_800, 0), "10000-01-01T00:00:00.000Z");
}

#[test]
fn timestamp_follows_the_reading_of_the_clock() {
    assert_eq!(timestamp_of(Ok((951_782_400, 250_000_000))), "2000-02-29T00:00:00.250Z");
    assert_eq!(timestamp_of(Err("before the epoch".to_string())), "1970-01-01T00:00:00.000Z");
}

#[test]
fn reading_splits_a_duration() {
    let since = std::time::Duration::new(5, 7);
    assert_eq!(clock::reading(Ok(since)), Ok((5, 7)));
    assert_eq!(clock::reading(Err("early".to_string())), Err("early".to_string()));
}

#[test]
fn timestamp_of_now_has_its_form() {
    let s = chrono_like_now();
    assert_eq!(s.len(), 24);
    assert!(s.ends_with('Z'));
    assert_eq!(&s[4..5], "-");
    assert_eq!(&s[10..11], "T");
    assert!(&s[0..4] >= "2024");
}
