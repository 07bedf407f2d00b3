use slasha_server::cron::schedule::parse;

#[test]
fn rejects_wrong_field_count() {
    assert!(parse("* * * *").is_err());
    assert!(parse("* * * * * *").is_err());
}

#[test]
fn field_count_message_names_the_count() {
    assert_eq!(
        parse("* * * *").err(),
        Some("expected 5 fields (minute hour day-of-month month day-of-week), got 4".to_string())
    );
}

use slasha_server::cron::schedule::parse_timezone;
use slasha_server::cron::{next_run_at, upcoming_runs};
use slasha_server::models::Timestamp;

fn at(s: &str) -> Timestamp {
    let dt = chrono::DateTime::parse_from_rfc3339(s).unwrap();
    Timestamp { secs: dt.timestamp(), nanos: dt.timestamp_subsec_nanos() }
}

#[test]
fn step_expands_minutes() {
    let schedule = parse("*/15 * * * *").unwrap();
    let next = schedule.next_after(at("2026-01-01T00:02:00Z"), "UTC").unwrap();
    assert_eq!(next, at("2026-01-01T00:15:00Z"));
}

#[test]
fn daily_midnight() {
    let schedule = parse("0 0 * * *").unwrap();
    let next = schedule.next_after(at("2026-01-01T08:00:00Z"), "UTC").unwrap();
    assert_eq!(next, at("2026-01-02T00:00:00Z"));
}

#[test]
fn weekday_morning_skips_weekend() {
    // 2026-01-03 is a Saturday; next weekday 09:00 is Monday the 5th.
    let schedule = parse("0 9 * * 1-5").unwrap();
    let next = schedule.next_after(at("2026-01-03T12:00:00Z"), "UTC").unwrap();
    assert_eq!(next, at("2026-01-05T09:00:00Z"));
}

#[test]
fn dom_and_dow_union() {
    // Runs on the 1st OR any Monday.
    let schedule = parse("0 0 1 * 1").unwrap();
    let next = schedule.next_after(at("2026-01-02T00:00:00Z"), "UTC").unwrap();
    assert_eq!(next, at("2026-01-05T00:00:00Z"));
}

#[test]
fn named_fields() {
    let schedule = parse("0 0 1 jan mon").unwrap();
    assert!(schedule.next_after(at("2026-01-01T00:00:00Z"), "UTC").is_some());
}

#[test]
fn schedule_in_a_zone_and_upcoming() {
    let schedule = parse("30 9 * * *").unwrap();
    // 09:30 in Berlin (UTC+1 in winter) is 08:30 UTC.
    assert_eq!(
        schedule.next_after(at("2026-01-01T00:00:00Z"), "Europe/Berlin"),
        Some(at("2026-01-01T08:30:00Z"))
    );
    let next3 = schedule.upcoming(at("2026-01-01T00:00:00Z"), "UTC", 3);
    assert_eq!(next3, vec![at("2026-01-01T09:30:00Z"), at("2026-01-02T09:30:00Z"), at("2026-01-03T09:30:00Z")]);
    assert_eq!(schedule.next_after(at("2026-01-01T00:00:00Z"), "Nowhere/City"), None);
}

#[test]
fn impossible_date_finds_nothing() {
    let schedule = parse("0 0 31 2 *").unwrap();
    assert_eq!(schedule.next_after(at("2026-01-01T00:00:00Z"), "UTC"), None);
}

#[test]
fn timezones_and_next_runs() {
    assert_eq!(parse_timezone("UTC"), Ok("UTC".to_string()));
    assert_eq!(parse_timezone("Mars/Base"), Err("invalid timezone 'Mars/Base'".to_string()));
    let from = at("2026-01-01T00:02:00Z");
    assert_eq!(next_run_at("*/15 * * * *", "UTC", &from), Ok(Some(at("2026-01-01T00:15:00Z"))));
    assert_eq!(next_run_at("* * * * *", "Mars/Base", &from), Err("invalid timezone 'Mars/Base'".to_string()));
    assert!(next_run_at("not a cron", "UTC", &from).unwrap_err().starts_with("invalid cron schedule: "));
    let runs = upcoming_runs("0 * * * *", "UTC", &from, 2).unwrap();
    assert_eq!(runs, vec![at("2026-01-01T01:00:00Z"), at("2026-01-01T02:00:00Z")]);
}

#[test]
fn next_after_gives_none_far_outside_the_calendar() {
    let schedule = parse("* * * * *").unwrap();
    assert_eq!(schedule.next_after(Timestamp { secs: 9_000_000_000_000, nanos: 0 }, "UTC"), None);
    assert_eq!(schedule.next_after(Timestamp { secs: -9_000_000_000_000, nanos: 0 }, "UTC"), None);
    assert!(schedule.next_after(Timestamp { secs: 0, nanos: 0 }, "Asia/Tokyo").is_some());
}

#[test]
fn upcoming_chains_next_after() {
    let schedule = parse("*/15 * * * *").unwrap();
    let from = at("2026-01-01T00:07:00Z");
    let runs = schedule.upcoming(from, "UTC", 4);
    assert_eq!(runs.len(), 4);
    assert_eq!(Some(runs[0]), schedule.next_after(from, "UTC"));
    for i in 1..runs.len() {
        assert_eq!(Some(runs[i]), schedule.next_after(runs[i - 1], "UTC"));
    }
}

#[test]
fn next_after_works_up_to_the_end_of_the_calendar() {
    let last_day = chrono::NaiveDate::MAX.and_hms_opt(0, 0, 0).unwrap().and_utc().timestamp();
    let schedule = parse("* * * * *").unwrap();
    assert_eq!(
        schedule.next_after(Timestamp { secs: last_day + 30, nanos: 0 }, "UTC"),
        Some(Timestamp { secs: last_day + 60, nanos: 0 })
    );
    // Nine hours ahead of UTC, the last evening's wall-clock time is past the calendar.
    assert_eq!(schedule.next_after(Timestamp { secs: last_day + 20 * 3600, nanos: 0 }, "Asia/Tokyo"), None);
}
