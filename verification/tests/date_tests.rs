use mensa_bot::date::{german_date_fmt, CalendarDate};

fn date(y: i32, m: u32, d: u32) -> CalendarDate {
    CalendarDate::from_ymd_opt(y, m, d).unwrap()
}

#[test]
fn rejects_days_that_do_not_exist() {
    assert!(CalendarDate::from_ymd_opt(2023, 2, 29).is_none());
    assert!(CalendarDate::from_ymd_opt(2024, 2, 29).is_some());
    assert!(CalendarDate::from_ymd_opt(1900, 2, 29).is_none());
    assert!(CalendarDate::from_ymd_opt(2000, 2, 29).is_some());
    assert!(CalendarDate::from_ymd_opt(2024, 4, 31).is_none());
    assert!(CalendarDate::from_ymd_opt(2024, 13, 1).is_none());
    assert!(CalendarDate::from_ymd_opt(2024, 1, 0).is_none());
    assert!(CalendarDate::from_ymd_opt(262142, 12, 31).is_some());
    assert!(CalendarDate::from_ymd_opt(262143, 1, 1).is_none());
    assert!(CalendarDate::from_ymd_opt(-262143, 1, 1).is_some());
    assert!(CalendarDate::from_ymd_opt(-262144, 12, 31).is_none());
}

#[test]
fn counts_weekdays_from_monday() {
    assert_eq!(date(2024, 5, 13).weekday_from_monday(), 0);
    assert_eq!(date(2024, 5, 17).weekday_from_monday(), 4);
    assert_eq!(date(2024, 5, 18).weekday_from_monday(), 5);
    assert_eq!(date(2024, 5, 19).weekday_from_monday(), 6);
    assert_eq!(date(1970, 1, 1).weekday_from_monday(), 3);
    assert_eq!(date(2000, 2, 29).weekday_from_monday(), 1);
    assert_eq!(date(1, 1, 1).weekday_from_monday(), 0);
    assert_eq!(date(-1, 1, 1).weekday_from_monday(), 4);
}

#[test]
fn writes_german_date_lines() {
    assert_eq!(german_date_fmt(date(2024, 5, 13)), "Montag, 13.05.2024");
    assert_eq!(german_date_fmt(date(2024, 5, 14)), "Dienstag, 14.05.2024");
    assert_eq!(german_date_fmt(date(2024, 5, 15)), "Mittwoch, 15.05.2024");
    assert_eq!(german_date_fmt(date(2024, 5, 16)), "Donnerstag, 16.05.2024");
    assert_eq!(german_date_fmt(date(2024, 5, 17)), "Freitag, 17.05.2024");
    assert_eq!(german_date_fmt(date(2024, 1, 2)), "Dienstag, 02.01.2024");
}

#[test]
fn writes_years_as_chrono_does() {
    assert_eq!(german_date_fmt(date(999, 3, 1)), "Freitag, 01.03.0999");
    assert_eq!(german_date_fmt(date(1, 1, 1)), "Montag, 01.01.0001");
    assert_eq!(german_date_fmt(date(-1, 1, 1)), "Freitag, 01.01.-0001");
}
