//! Schedules.
use chrono::{TimeZone as _, Utc};
use spacebot::schedule::{
    judge_cron_expr, normalize_cron_expr, parse_cron_schedule, pick_behind, CronExprError, ScheduleSpec,
};
use spacebot::time::{Instant, LAST_SECOND};

fn utc(y: i32, mo: u32, d: u32, h: u32, mi: u32, s: u32) -> Instant {
    Instant { at: Utc.with_ymd_and_hms(y, mo, d, h, mi, s).unwrap().timestamp(), nanos: 0 }
}

#[test]
fn interval_adds_seconds_to_anchor() {
    let spec = ScheduleSpec { cron_expr: None, interval_secs: Some(600) };
    let after = utc(2026, 8, 9, 10, 0, 0);
    assert_eq!(spec.next_occurrence(after, "UTC"), Some(utc(2026, 8, 9, 10, 10, 0)));
}

#[test]
fn zero_interval_yields_no_occurrence() {
    let spec = ScheduleSpec { cron_expr: None, interval_secs: Some(0) };
    assert_eq!(spec.next_occurrence(utc(2026, 8, 9, 10, 0, 0), "UTC"), None);
}

#[test]
fn oversized_interval_yields_no_occurrence() {
    for interval in [u64::MAX, i64::MAX as u64] {
        let spec = ScheduleSpec { cron_expr: None, interval_secs: Some(interval) };
        assert_eq!(spec.next_occurrence(utc(2026, 8, 9, 10, 0, 0), "UTC"), None);
    }
}

#[test]
fn empty_spec_yields_no_occurrence() {
    let spec = ScheduleSpec { cron_expr: None, interval_secs: None };
    assert_eq!(spec.next_occurrence(utc(2026, 8, 9, 10, 0, 0), "UTC"), None);
}

#[test]
fn cron_expression_evaluates_in_timezone() {
    // Daily at 08:00 local. At 12:00 UTC on Jan 15 it is 07:00 in New York
    // (UTC-5), so the next fire is 08:00 EST the same day, 13:00 UTC, even
    // though 08:00 UTC has already passed.
    let spec = ScheduleSpec { cron_expr: Some("0 8 * * *".to_string()), interval_secs: None };
    let after = utc(2026, 1, 15, 12, 0, 0);
    assert_eq!(
        spec.next_occurrence(after, "America/New_York"),
        Some(utc(2026, 1, 15, 13, 0, 0))
    );
}

#[test]
fn cron_expression_wins_over_interval() {
    let spec = ScheduleSpec { cron_expr: Some("0 8 * * *".to_string()), interval_secs: Some(600) };
    let after = utc(2026, 1, 15, 12, 0, 0);
    // The cron path fires at 08:00 the next day in UTC, not after + 600s.
    assert_eq!(spec.next_occurrence(after, "UTC"), Some(utc(2026, 1, 16, 8, 0, 0)));
}

#[test]
fn invalid_expression_yields_no_occurrence() {
    let spec = ScheduleSpec { cron_expr: Some("not a cron expression".to_string()), interval_secs: Some(600) };
    assert_eq!(spec.next_occurrence(utc(2026, 8, 9, 10, 0, 0), "UTC"), None);
}

#[test]
fn normalize_accepts_five_field_form() {
    assert_eq!(
        normalize_cron_expr(Some(" 0 8 * * * ".to_string())).unwrap(),
        Some("0 8 * * *".to_string())
    );
    assert_eq!(normalize_cron_expr(None).unwrap(), None);
    assert_eq!(normalize_cron_expr(Some("  ".to_string())).unwrap(), None);
}

#[test]
fn normalize_rejects_wrong_field_count_and_bad_fields() {
    assert!(normalize_cron_expr(Some("0 8 * *".to_string())).is_err());
    assert!(normalize_cron_expr(Some("0 8 * * * *".to_string())).is_err());
    assert!(normalize_cron_expr(Some("99 99 * * *".to_string())).is_err());
}

#[test]
fn refusals_tell_the_count_from_the_fields() {
    assert!(matches!(
        normalize_cron_expr(Some("0 8 * *".to_string())),
        Err(CronExprError::FieldCount(4, _))
    ));
    assert!(matches!(
        normalize_cron_expr(Some("99 99 * * *".to_string())),
        Err(CronExprError::Invalid(_, _))
    ));
    assert_eq!(judge_cron_expr("0 8 * * *".to_string(), None).unwrap(), Some("0 8 * * *".to_string()));
    assert!(judge_cron_expr("0 8 * * *".to_string(), Some("no".to_string())).is_err());
}

#[test]
fn schedules_parse_five_fields() {
    assert!(parse_cron_schedule("*/5 * * * *").is_ok());
    assert!(parse_cron_schedule("nonsense").is_err());
}

#[test]
fn fired_occurrences_are_taken_as_they_are() {
    let spec = ScheduleSpec { cron_expr: Some("0 8 * * *".to_string()), interval_secs: Some(600) };
    let at = |at| Instant { at, nanos: 0 };
    assert_eq!(spec.next_occurrence_in(at(0), Some(at(17))), Some(at(17)));
    assert_eq!(spec.next_occurrence_in(at(0), None), None);
}

#[test]
fn intervals_keep_the_part_of_a_second() {
    let spec = ScheduleSpec { cron_expr: None, interval_secs: Some(600) };
    let after = Instant { nanos: 250_000_000, ..utc(2026, 8, 9, 10, 0, 0) };
    let next = Instant { nanos: 250_000_000, ..utc(2026, 8, 9, 10, 10, 0) };
    assert_eq!(spec.next_occurrence(after, "UTC"), Some(next));
    let last = Instant { at: LAST_SECOND - 600, nanos: 1 };
    assert_eq!(spec.next_occurrence(last, "UTC"), Some(Instant { at: LAST_SECOND, nanos: 1 }));
    assert_eq!(spec.next_occurrence(Instant { at: LAST_SECOND - 599, nanos: 0 }, "UTC"), None);
    let daily = ScheduleSpec { cron_expr: Some("0 8 * * *".to_string()), interval_secs: None };
    let on_the_hour = Instant { nanos: 1, ..utc(2026, 8, 9, 8, 0, 0) };
    assert_eq!(daily.next_occurrence(on_the_hour, "UTC"), Some(utc(2026, 8, 10, 8, 0, 0)));
    let just_before = Instant { nanos: 999_999_999, ..utc(2026, 8, 9, 7, 59, 59) };
    assert_eq!(daily.next_occurrence(just_before, "UTC"), Some(utc(2026, 8, 9, 8, 0, 0)));
}

#[test]
fn a_repeated_hour_fires_strictly_later() {
    // On this day 01:30 comes twice in New York: at 05:30 and at 06:30 UTC.
    let spec = ScheduleSpec { cron_expr: Some("45 1 * * *".to_string()), interval_secs: None };
    let next = |hour, minute| spec.next_occurrence(utc(2026, 11, 1, hour, minute, 0), "America/New_York");
    assert_eq!(next(5, 30), Some(utc(2026, 11, 1, 5, 45, 0)));
    assert_eq!(next(6, 30), Some(utc(2026, 11, 1, 6, 45, 0)));
    assert_eq!(next(6, 45), Some(utc(2026, 11, 2, 6, 45, 0)));
    assert_eq!(pick_behind(10, Some(11), Some(12)), Some(11));
    assert_eq!(pick_behind(10, Some(10), Some(12)), Some(12));
    assert_eq!(pick_behind(10, Some(9), Some(10)), None);
    assert_eq!(pick_behind(10, None, Some(12)), None);
}
