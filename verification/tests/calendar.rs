use aether_usage_policy::calendar::{calendar_period, CalendarWindow};
use aether_usage_policy::error::GatewayError;
use aether_usage_policy::plan_windows::{calendar_bucket, calendar_window_bounds};
use aether_usage_policy::timezone::{effective_timezone_name, DEFAULT_CALENDAR_TIMEZONE};

fn unix(moment: &str) -> u64 {
    chrono::DateTime::parse_from_rfc3339(moment).unwrap().timestamp() as u64
}

fn period(moment: &str, zone: &str, kind: CalendarWindow, week_start: u8) -> (u64, u64) {
    calendar_period(unix(moment), zone, kind, week_start).unwrap()
}

#[test]
fn days_run_from_midnight_to_midnight_of_the_zone() {
    assert_eq!(
        period("2026-08-18T23:59:59+08:00", "Asia/Shanghai", CalendarWindow::Day, 1),
        (unix("2026-08-18T00:00:00+08:00"), unix("2026-08-19T00:00:00+08:00"))
    );
    assert_eq!(
        period("2026-08-18T23:59:59+08:00", "UTC", CalendarWindow::Day, 1),
        (unix("2026-08-18T00:00:00Z"), unix("2026-08-19T00:00:00Z"))
    );
}

#[test]
fn a_day_may_have_twenty_three_or_twenty_five_hours() {
    let (start, end) =
        period("2026-03-08T12:00:00-04:00", "America/New_York", CalendarWindow::Day, 1);
    assert_eq!(end - start, 23 * 3_600);
    let (start, end) =
        period("2026-11-01T12:00:00-05:00", "America/New_York", CalendarWindow::Day, 1);
    assert_eq!(end - start, 25 * 3_600);
}

#[test]
fn a_day_that_starts_twice_is_taken_whole() {
    let (start, end) =
        period("2026-11-01T12:00:00-05:00", "America/Havana", CalendarWindow::Day, 1);
    assert_eq!(start, unix("2026-11-01T00:00:00-04:00"));
    assert_eq!(end, unix("2026-11-02T00:00:00-05:00"));
    let (_, end) = period("2026-10-31T12:00:00-04:00", "America/Havana", CalendarWindow::Day, 1);
    assert_eq!(end, unix("2026-11-01T00:00:00-05:00"));
}

#[test]
fn a_day_without_midnight_has_no_period() {
    assert!(matches!(
        calendar_period(
            unix("2026-04-24T12:00:00+03:00"),
            "Africa/Cairo",
            CalendarWindow::Day,
            1
        ),
        Err(GatewayError::Internal(message))
            if message == "usage policy calendar window is out of range"
    ));
}

#[test]
fn weeks_start_on_their_weekday() {
    for (week_start, first) in [
        (1, "2026-08-17"),
        (2, "2026-08-18"),
        (3, "2026-08-19"),
        (4, "2026-08-13"),
        (7, "2026-08-16"),
    ] {
        let start = unix(&format!("{first}T00:00:00+08:00"));
        assert_eq!(
            period("2026-08-19T12:00:00+08:00", "Asia/Shanghai", CalendarWindow::Week, week_start),
            (start, start + 7 * 86_400)
        );
    }
}

#[test]
fn months_run_from_their_first_to_the_next() {
    assert_eq!(
        period("2024-02-29T12:00:00Z", "UTC", CalendarWindow::Month, 1),
        (unix("2024-02-01T00:00:00Z"), unix("2024-03-01T00:00:00Z"))
    );
    assert_eq!(
        period("2026-12-31T23:30:00Z", "UTC", CalendarWindow::Month, 1),
        (unix("2026-12-01T00:00:00Z"), unix("2027-01-01T00:00:00Z"))
    );
    assert_eq!(
        period("2026-12-31T23:30:00Z", "Asia/Shanghai", CalendarWindow::Month, 1),
        (unix("2027-01-01T00:00:00+08:00"), unix("2027-02-01T00:00:00+08:00"))
    );
}

#[test]
fn every_day_of_four_centuries_falls_into_its_windows() {
    let mut now = 3_600_u64;
    for day in 0..146_097_u64 {
        let (start, end) = calendar_period(now, "UTC", CalendarWindow::Day, 1).unwrap();
        assert_eq!((start, end), (day * 86_400, (day + 1) * 86_400));
        let (start, end) =
            calendar_period(now + 7 * 86_400, "UTC", CalendarWindow::Week, 1).unwrap();
        assert!(start <= now + 7 * 86_400 && now + 7 * 86_400 < end);
        assert_eq!(end - start, 7 * 86_400);
        assert_eq!((start / 86_400) % 7, 4);
        now += 86_400;
    }
}

#[test]
fn what_lies_outside_the_calendar_is_told() {
    assert!(matches!(
        calendar_period(0, "Mars/Olympus", CalendarWindow::Day, 1),
        Err(GatewayError::Internal(message))
            if message == "usage policy contains an invalid timezone"
    ));
    assert!(matches!(
        calendar_period(u64::MAX, "UTC", CalendarWindow::Day, 1),
        Err(GatewayError::Internal(message))
            if message == "usage policy timestamp is out of range"
    ));
    assert!(matches!(
        calendar_period(0, "Asia/Shanghai", CalendarWindow::Day, 1),
        Err(GatewayError::Internal(message))
            if message == "usage policy calendar window is out of range"
    ));
}

#[test]
fn buckets_and_bounds_agree() {
    let now = unix("2026-08-18T23:59:58+08:00");
    let start = unix("2026-08-18T00:00:00+08:00");
    let (bucket, length, left, label) =
        calendar_bucket(now, None, None, CalendarWindow::Day, 1).unwrap();
    assert_eq!(bucket, start.to_string());
    assert_eq!((length, left, label), (86_400, 2, "calendar_day"));
    assert_eq!(
        calendar_window_bounds(now, None, None, CalendarWindow::Day, 1).unwrap(),
        (start, start + 86_400, 2, "calendar_day")
    );
}

#[test]
fn the_zone_is_the_named_the_configured_or_the_default_one() {
    assert_eq!(effective_timezone_name(Some(" UTC "), Some("Europe/Berlin")), "UTC");
    assert_eq!(effective_timezone_name(Some("  "), Some(" Europe/Berlin\n")), "Europe/Berlin");
    assert_eq!(effective_timezone_name(None, Some("Mars/Olympus")), DEFAULT_CALENDAR_TIMEZONE);
    assert_eq!(effective_timezone_name(None, None), "Asia/Shanghai");
    assert_eq!(effective_timezone_name(Some("Mars/Olympus"), None), "Mars/Olympus");
}

#[test]
fn calendar_windows_hold_their_moments_and_join() {
    for (zone, moment) in [
        ("Asia/Shanghai", "2026-08-19T13:14:15+08:00"),
        ("America/New_York", "2026-03-08T12:00:00-04:00"),
        ("America/New_York", "2026-11-01T12:00:00-05:00"),
        ("UTC", "2024-02-29T23:59:59Z"),
    ] {
        let now = unix(moment);
        for kind in [CalendarWindow::Day, CalendarWindow::Week, CalendarWindow::Month] {
            let told = |at: u64| calendar_bucket(at, Some(zone), None, kind, 3).unwrap();
            let (key, length, rest, label) = told(now);
            let start: u64 = key.parse().unwrap();
            assert!(start <= now && now < start + length);
            assert_eq!(rest, start + length - now);
            for other in [start, start + 1, now, start + length / 2, start + length - 1] {
                let (other_key, other_length, other_rest, other_label) = told(other);
                assert_eq!((other_key, other_length, other_label), (key.clone(), length, label));
                assert_eq!(other_rest, start + length - other);
            }
            let (next_key, ..) = told(start + length);
            assert_eq!(next_key, (start + length).to_string());
            let (previous_key, previous_length, ..) = told(start - 1);
            assert_eq!(previous_key.parse::<u64>().unwrap() + previous_length, start);
        }
    }
}

#[test]
fn a_window_whose_days_start_twice_holds_its_moments() {
    for moment in [
        "2026-10-31T12:00:00-04:00",
        "2026-11-01T00:30:00-04:00",
        "2026-11-01T00:30:00-05:00",
        "2026-11-01T12:00:00-05:00",
    ] {
        let now = unix(moment);
        for kind in [CalendarWindow::Day, CalendarWindow::Week, CalendarWindow::Month] {
            let (key, length, rest, _) =
                calendar_bucket(now, Some("America/Havana"), None, kind, 7).unwrap();
            let start: u64 = key.parse().unwrap();
            assert!(start <= now && now < start + length, "{moment}");
            assert_eq!(rest, start + length - now);
        }
    }
}
