use chrono::Datelike;
use mindmirror::calendar::{date_text, days_before, timestamp_text, LocalTime};

fn day(year: i32, month: u32, day: u32) -> i32 {
    chrono::NaiveDate::from_ymd_opt(year, month, day).unwrap().num_days_from_ce()
}

#[test]
fn reading_needs_seconds_within_the_day() {
    assert_eq!(
        LocalTime::new(5, 86_399),
        Some(LocalTime { days_from_ce: 5, seconds_from_midnight: 86_399 })
    );
    assert_eq!(LocalTime::new(5, 86_400), None);
}

#[test]
fn seconds_before_stay_in_the_day_or_borrow_days() {
    let noon = LocalTime { days_from_ce: 100, seconds_from_midnight: 43_200 };
    assert_eq!(
        noon.seconds_before(60),
        Some(LocalTime { days_from_ce: 100, seconds_from_midnight: 43_140 })
    );
    assert_eq!(
        noon.seconds_before(43_200),
        Some(LocalTime { days_from_ce: 100, seconds_from_midnight: 0 })
    );
    assert_eq!(
        noon.seconds_before(43_201),
        Some(LocalTime { days_from_ce: 99, seconds_from_midnight: 86_399 })
    );
    assert_eq!(
        noon.seconds_before(43_200 + 86_400),
        Some(LocalTime { days_from_ce: 99, seconds_from_midnight: 0 })
    );
    assert_eq!(
        noon.seconds_before(43_200 + 2 * 86_400 + 1),
        Some(LocalTime { days_from_ce: 97, seconds_from_midnight: 86_399 })
    );
    let first = LocalTime { days_from_ce: i32::MIN, seconds_from_midnight: 59 };
    assert_eq!(
        first.seconds_before(59),
        Some(LocalTime { days_from_ce: i32::MIN, seconds_from_midnight: 0 })
    );
    assert_eq!(first.seconds_before(60), None);
}

#[test]
fn minute_of_the_day() {
    let reading = LocalTime { days_from_ce: 1, seconds_from_midnight: 3_725 };
    assert_eq!(reading.minute_of_day(), 62);
}

#[test]
fn days_before_stop_at_the_first_day() {
    assert_eq!(days_before(10, 3), Some(7));
    assert_eq!(days_before(0, 1), Some(-1));
    assert_eq!(days_before(i32::MIN, 0), Some(i32::MIN));
    assert_eq!(days_before(i32::MIN, 1), None);
    assert_eq!(days_before(i32::MAX, u32::MAX), Some(i32::MIN));
}

#[test]
fn timestamps_are_written_to_the_second() {
    let reading = LocalTime { days_from_ce: day(2024, 2, 29), seconds_from_midnight: 3_725 };
    assert_eq!(timestamp_text(&reading), Some("2024-02-29 01:02:05".to_string()));
    let first = LocalTime { days_from_ce: 1, seconds_from_midnight: 0 };
    assert_eq!(timestamp_text(&first), Some("0001-01-01 00:00:00".to_string()));
    let late = LocalTime { days_from_ce: 1, seconds_from_midnight: 86_400 };
    assert_eq!(timestamp_text(&late), None);
    let far = LocalTime { days_from_ce: i32::MAX, seconds_from_midnight: 0 };
    assert_eq!(timestamp_text(&far), None);
}

#[test]
fn dates_are_written_year_first() {
    assert_eq!(date_text(day(2024, 12, 31)), Some("2024-12-31".to_string()));
    assert_eq!(date_text(day(1999, 9, 3)), Some("1999-09-03".to_string()));
    assert_eq!(date_text(730_000), Some("1999-09-03".to_string()));
    assert_eq!(date_text(i32::MIN), None);
}
