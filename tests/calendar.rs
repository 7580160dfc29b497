use pixiv_rank::calendar::{format_date_key, plan_days, CalDate, EXCLUDED_DAYS, MIN_YEAR};
use pixiv_rank::feed::AggregateError;

fn d(year: i32, month: u32, day: u32) -> CalDate {
    CalDate { year, month, day }
}

#[test]
fn date_keys() {
    assert_eq!(format_date_key(d(2022, 5, 20)), "20220520");
    assert_eq!(format_date_key(d(987, 12, 1)), "09871201");
    assert_eq!(format_date_key(d(12345, 1, 2)), "123450102");
    assert_eq!(format_date_key(d(-5, 3, 4)), "-0050304");
}

#[test]
fn plan_walks_back_from_anchor() {
    let p = plan_days(d(2022, 3, 2), 1, 2).unwrap();
    assert_eq!(p.included, vec!["20220301", "20220228"]);
    assert_eq!(EXCLUDED_DAYS, 3);
    assert_eq!(p.excluded, vec!["20220227", "20220226", "20220225"]);
}

#[test]
fn plan_crosses_leap_day_and_year() {
    let p = plan_days(d(2024, 3, 1), 0, 1).unwrap();
    assert_eq!(p.included, vec!["20240301"]);
    assert_eq!(p.excluded, vec!["20240229", "20240228", "20240227"]);
    let p = plan_days(d(2023, 1, 2), 1, 1).unwrap();
    assert_eq!(p.included, vec!["20230101"]);
    assert_eq!(p.excluded, vec!["20221231", "20221230", "20221229"]);
}

#[test]
fn empty_inclusion_window() {
    let p = plan_days(d(2022, 5, 20), 0, 0).unwrap();
    assert!(p.included.is_empty());
    assert_eq!(p.excluded, vec!["20220520", "20220519", "20220518"]);
}

#[test]
fn plan_out_of_range() {
    assert!(matches!(plan_days(d(MIN_YEAR, 1, 2), 0, 1), Err(AggregateError::DateOutOfRange)));
    assert!(matches!(plan_days(d(2022, 2, 30), 0, 1), Err(AggregateError::DateOutOfRange)));
    assert!(plan_days(d(MIN_YEAR, 1, 4), 0, 1).is_ok());
}
