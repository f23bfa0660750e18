use prolapse::{day_of_year, next_date, CalendarDate, DateError};

fn date(year: i32, month: u32, day: u32) -> CalendarDate {
    CalendarDate::new(year, month, day).unwrap()
}

#[test]
fn ordinal_after_leap_february() {
    assert_eq!(day_of_year(2000, 3, 1), Ok(61));
}

#[test]
fn ordinal_century_not_leap() {
    assert_eq!(day_of_year(1900, 3, 1), Ok(60));
}

#[test]
fn ordinal_last_day_of_leap_year() {
    assert_eq!(day_of_year(2008, 12, 31), Ok(366));
}

#[test]
fn ordinal_last_day_of_common_year() {
    assert_eq!(day_of_year(2023, 12, 31), Ok(365));
}

#[test]
fn ordinal_first_day() {
    assert_eq!(day_of_year(2024, 1, 1), Ok(1));
}

#[test]
fn ordinal_mid_year() {
    // 31 + 28 + 31 + 30 + 31 + 30 + 4
    assert_eq!(day_of_year(2019, 7, 4), Ok(185));
}

#[test]
fn ordinal_matches_running_count() {
    for year in [1900, 1999, 2000, 2024] {
        let mut d = date(year, 1, 1);
        let mut expected = 1u32;
        while d.year == year {
            assert_eq!(day_of_year(d.year, d.month, d.day), Ok(expected));
            d = next_date(d);
            expected += 1;
        }
        let leap = (year % 4 == 0 && year % 100 != 0) || year % 400 == 0;
        assert_eq!(expected - 1, if leap { 366 } else { 365 });
    }
}

#[test]
fn invalid_dates_are_refused() {
    assert_eq!(day_of_year(2021, 4, 31), Err(DateError::InvalidDate));
    assert_eq!(day_of_year(2021, 2, 29), Err(DateError::InvalidDate));
    assert_eq!(day_of_year(2021, 13, 1), Err(DateError::InvalidDate));
    assert_eq!(day_of_year(2021, 0, 1), Err(DateError::InvalidDate));
    assert_eq!(day_of_year(2021, 1, 0), Err(DateError::InvalidDate));
    assert_eq!(day_of_year(2000, 2, 29), Ok(60));
    assert_eq!(CalendarDate::new(1900, 2, 29), Err(DateError::InvalidDate));
}

#[test]
fn next_date_rolls_over() {
    assert_eq!(next_date(date(2021, 6, 14)), date(2021, 6, 15));
    assert_eq!(next_date(date(2021, 4, 30)), date(2021, 5, 1));
    assert_eq!(next_date(date(2021, 2, 28)), date(2021, 3, 1));
    assert_eq!(next_date(date(2020, 2, 28)), date(2020, 2, 29));
    assert_eq!(next_date(date(2020, 12, 31)), date(2021, 1, 1));
}

#[test]
fn dates_order_by_year_month_day() {
    assert!(date(2020, 12, 31).is_before(&date(2021, 1, 1)));
    assert!(date(2021, 1, 31).is_before(&date(2021, 2, 1)));
    assert!(!date(2021, 2, 1).is_before(&date(2021, 2, 1)));
    assert!(!date(2021, 2, 2).is_before(&date(2021, 2, 1)));
}
