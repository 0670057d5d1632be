use church_date::civil::{day_of_week, days_after, days_before, next_sunday, previous_sunday};
use church_date::CalendarDate;

fn date(y: i32, m: u32, d: u32) -> CalendarDate {
    CalendarDate::new(y, m, d).unwrap()
}

#[test]
fn new_checks_month_lengths() {
    assert!(CalendarDate::new(2024, 2, 29).is_some());
    assert!(CalendarDate::new(2023, 2, 29).is_none());
    assert!(CalendarDate::new(1900, 2, 29).is_none());
    assert!(CalendarDate::new(2000, 2, 29).is_some());
    assert!(CalendarDate::new(2024, 4, 31).is_none());
    assert!(CalendarDate::new(2024, 13, 1).is_none());
    assert!(CalendarDate::new(2024, 1, 0).is_none());
}

#[test]
fn weekdays_of_known_dates() {
    assert_eq!(day_of_week(date(2024, 3, 31)), 0);
    assert_eq!(day_of_week(date(2024, 10, 31)), 4);
    assert_eq!(day_of_week(date(2000, 1, 1)), 6);
    assert_eq!(day_of_week(date(1, 1, 1)), 1);
}

#[test]
fn stepping_across_months_and_years() {
    assert_eq!(days_after(date(2023, 12, 26), 7), date(2024, 1, 2));
    assert_eq!(days_after(date(2024, 2, 28), 1), date(2024, 2, 29));
    assert_eq!(days_before(date(2024, 3, 31), 46), date(2024, 2, 14));
    assert_eq!(days_before(date(2025, 1, 1), 1), date(2024, 12, 31));
}

#[test]
fn nearest_sundays() {
    assert_eq!(next_sunday(date(2024, 12, 26)), date(2024, 12, 29));
    assert_eq!(next_sunday(date(2021, 12, 26)), date(2021, 12, 26));
    assert_eq!(previous_sunday(date(2024, 10, 31)), date(2024, 10, 27));
    assert_eq!(previous_sunday(date(2024, 11, 26)), date(2024, 11, 24));
}
