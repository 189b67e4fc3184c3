//! Spans, clock readings and their text.
use mcpg_plugin_cluster_etcd::time::{
    can_reach, now_rfc3339, now_unix_nanos, rfc3339_after, ttl_from_ms, TimeSpan, UnixTime,
    LAST_SECOND,
};

fn at(secs: i64, nanos: u32) -> UnixTime {
    UnixTime { secs, nanos }
}

#[test]
fn clock_readings_are_written_to_the_second() {
    assert_eq!(now_rfc3339(at(0, 0)), "1970-01-01T00:00:00Z");
    assert_eq!(now_rfc3339(at(1_700_000_000, 999_999_999)), "2023-11-14T22:13:20Z");
    assert_eq!(now_rfc3339(at(LAST_SECOND, 999_999_999)), "+262142-12-31T23:59:59Z");
}

#[test]
fn the_end_of_a_span_is_written() {
    let now = at(1_700_000_000, 500_000_000);
    assert_eq!(rfc3339_after(now, TimeSpan::from_secs(30)), "2023-11-14T22:13:50Z");
    // The fractions add up to a whole second.
    assert_eq!(rfc3339_after(now, TimeSpan::from_millis(500)), "2023-11-14T22:13:21Z");
    assert_eq!(rfc3339_after(now, TimeSpan::from_millis(499)), "2023-11-14T22:13:20Z");
}

#[test]
fn a_span_too_long_to_shift_by_counts_as_none() {
    let now = at(1_700_000_000, 0);
    let longest = TimeSpan { secs: 9_223_372_036_854_775, nanos: 807_000_000 };
    let longer = TimeSpan { secs: 9_223_372_036_854_775, nanos: 807_000_001 };
    assert_eq!(rfc3339_after(now, longer), now_rfc3339(now));
    assert_eq!(rfc3339_after(now, TimeSpan { secs: u64::MAX, nanos: 0 }), now_rfc3339(now));
    // The longest shift leads out of the calendar.
    assert!(!can_reach(now, longest));
    assert!(can_reach(now, longer));
}

#[test]
fn the_calendar_ends() {
    let near = at(LAST_SECOND - 10, 0);
    assert!(can_reach(near, TimeSpan::from_secs(10)));
    assert_eq!(rfc3339_after(near, TimeSpan::from_secs(10)), "+262142-12-31T23:59:59Z");
    assert!(!can_reach(near, TimeSpan::from_secs(11)));
    assert!(!can_reach(at(LAST_SECOND + 1, 0), TimeSpan::from_secs(0)));
    assert!(!can_reach(at(-1, 0), TimeSpan::from_secs(0)));
    assert!(!can_reach(at(0, 1_000_000_000), TimeSpan::from_secs(0)));
}

#[test]
fn spans_are_made_multiplied_and_divided() {
    assert_eq!(TimeSpan::from_millis(1_234), TimeSpan { secs: 1, nanos: 234_000_000 });
    assert_eq!(TimeSpan::from_secs(5).as_nanos(), 5_000_000_000);
    assert_eq!(TimeSpan::from_millis(1_500).saturating_times(3), TimeSpan::from_millis(4_500));
    let longest = TimeSpan { secs: u64::MAX, nanos: 999_999_999 };
    assert_eq!(TimeSpan::from_secs(u64::MAX).saturating_times(2), longest);
    assert_eq!(TimeSpan::from_secs(1).divided(3), TimeSpan { secs: 0, nanos: 333_333_333 });
    assert!(TimeSpan::from_millis(0).is_zero());
    assert!(!TimeSpan { secs: 0, nanos: 1 }.is_zero());
}

#[test]
fn milliseconds_become_an_optional_span() {
    assert_eq!(ttl_from_ms(None), None);
    assert_eq!(ttl_from_ms(Some(0)), Some(TimeSpan { secs: 0, nanos: 0 }));
    assert_eq!(ttl_from_ms(Some(2_500)), Some(TimeSpan { secs: 2, nanos: 500_000_000 }));
}

#[test]
fn a_clock_before_the_epoch_reads_zero() {
    assert_eq!(now_unix_nanos(None), 0);
    assert_eq!(now_unix_nanos(Some(TimeSpan { secs: 3, nanos: 7 })), 3_000_000_007);
}
