use pitwall::components::run_detail::{duration_between, format_duration};
use pitwall::components::run_row::{relative, relative_at};
use pitwall::github::headers::reset_time;
use pitwall::time::{Timestamp, FIRST_SECOND, LAST_SECOND};

fn at(secs: i64) -> Timestamp {
    Timestamp { secs, nanos: 0 }
}

#[test]
fn the_calendar_ends_where_chrono_ends() {
    assert_eq!(chrono::DateTime::<chrono::Utc>::MIN_UTC.timestamp(), FIRST_SECOND);
    assert_eq!(chrono::DateTime::<chrono::Utc>::MAX_UTC.timestamp(), LAST_SECOND);
    assert!(at(FIRST_SECOND).is_valid());
    assert!(at(LAST_SECOND).is_valid());
    assert!(!at(FIRST_SECOND - 1).is_valid());
    assert!(!at(LAST_SECOND + 1).is_valid());
}

#[test]
fn a_leap_second_stands_in_second_fifty_nine() {
    assert!(Timestamp { secs: 59, nanos: 1_500_000_000 }.is_valid());
    assert!(!Timestamp { secs: 58, nanos: 1_500_000_000 }.is_valid());
    assert!(Timestamp { secs: -1, nanos: 1_999_999_999 }.is_valid());
    assert!(!Timestamp { secs: 59, nanos: 2_000_000_000 }.is_valid());
    for secs in -121..121 {
        let given = Timestamp { secs, nanos: 1_000_000_000 };
        let chrono_has_it = chrono::DateTime::from_timestamp(secs, 1_000_000_000).is_some();
        assert_eq!(given.is_valid(), chrono_has_it);
    }
}

#[test]
fn durations_read_in_minutes_and_seconds() {
    assert_eq!(format_duration(at(0), at(45)), "45s");
    assert_eq!(format_duration(at(0), at(59)), "59s");
    assert_eq!(format_duration(at(0), at(60)), "1m");
    assert_eq!(format_duration(at(0), at(83)), "1m 23s");
    assert_eq!(format_duration(at(0), at(7200)), "120m");
    assert_eq!(format_duration(at(50), at(40)), "0s");
}

#[test]
fn durations_round_toward_zero() {
    let from = Timestamp { secs: 10, nanos: 900_000_000 };
    let to = Timestamp { secs: 12, nanos: 100_000_000 };
    assert_eq!(format_duration(from, to), "1s");
    let leap = Timestamp { secs: 59, nanos: 1_000_000_000 };
    assert_eq!(format_duration(leap, at(60)), "1s");
    assert_eq!(format_duration(at(59), leap), "1s");
}

#[test]
fn a_missing_end_is_still_running() {
    assert_eq!(duration_between(Some(at(0)), Some(at(30)), at(99)), "30s");
    assert_eq!(duration_between(Some(at(0)), None, at(90)), "running · 1m 30s");
    assert_eq!(duration_between(None, Some(at(30)), at(99)), "");
    assert_eq!(duration_between(None, None, at(99)), "");
}

#[test]
fn ages_are_compact() {
    let age = |seconds: i64| relative_at(at(0), at(seconds));
    assert_eq!(age(-100), "just now");
    assert_eq!(age(44), "just now");
    assert_eq!(age(45), "1m ago");
    assert_eq!(age(89), "1m ago");
    assert_eq!(age(90), "1m ago");
    assert_eq!(age(300), "5m ago");
    assert_eq!(age(3599), "59m ago");
    assert_eq!(age(3600), "1h ago");
    assert_eq!(age(7199), "1h ago");
    assert_eq!(age(7200), "2h ago");
    assert_eq!(age(86_399), "23h ago");
    assert_eq!(age(86_400), "1d ago");
    assert_eq!(age(172_800), "2d ago");
}

#[test]
fn the_clock_has_moved_on_since_the_epoch() {
    assert!(relative(at(0)).ends_with("d ago"));
    assert_eq!(relative(at(8_000_000_000_000)), "just now");
}

#[test]
fn a_reset_is_an_instant_of_the_calendar() {
    assert_eq!(reset_time(1_753_000_000), Some(at(1_753_000_000)));
    assert_eq!(reset_time(0), Some(at(0)));
    assert_eq!(reset_time(LAST_SECOND as u64), Some(at(LAST_SECOND)));
    assert_eq!(reset_time(LAST_SECOND as u64 + 1), None);
    assert_eq!(reset_time(u64::MAX), Some(at(-1)));
}
