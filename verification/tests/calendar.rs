use third_life::time::{update_date, Date, DateChanged, GameDate, FIRST_DAY, LAST_DAY};

fn ymd(year: i32, month: u32, day: u32) -> Date {
    Date::from_ymd(year, month, day).unwrap()
}

#[test]
fn day_numbers_count_from_the_first_of_january_of_year_one() {
    assert_eq!(ymd(1, 1, 1).days, 1);
    assert_eq!(ymd(1970, 1, 1).days, 719_163);
    assert_eq!(ymd(2050, 1, 1).days, 748_383);
    assert_eq!(ymd(9999, 12, 31).days, LAST_DAY);
    assert_eq!(FIRST_DAY, 1);
}

#[test]
fn a_date_splits_into_what_it_was_made_from() {
    let date = ymd(2048, 2, 29);
    assert_eq!(date.days, 747_711);
    assert_eq!(date.year(), Some(2048));
    assert_eq!(date.month(), Some(2));
    assert_eq!(date.day(), Some(29));
}

#[test]
fn there_is_no_thirtieth_of_february() {
    assert_eq!(Date::from_ymd(2050, 2, 30), None);
    assert_eq!(Date::from_ymd(2050, 13, 1), None);
    assert_eq!(Date::from_ymd(2049, 2, 29), None);
    assert_eq!(Date::from_ymd(10_000, 1, 1), None);
    assert_eq!(Date::from_ymd(0, 12, 31), None);
}

#[test]
fn the_ordinal_counts_the_days_of_a_year() {
    assert_eq!(Date::from_yo(2050, 1), Some(ymd(2050, 1, 1)));
    assert_eq!(Date::from_yo(2050, 365), Some(ymd(2050, 12, 31)));
    assert_eq!(Date::from_yo(2048, 60), Some(ymd(2048, 2, 29)));
    assert_eq!(Date::from_yo(2050, 366), None);
    assert_eq!(Date::from_yo(2050, 0), None);
}

#[test]
fn day_numbers_outside_the_calendar_are_no_dates() {
    assert_eq!(Date::from_num_days(0), None);
    assert_eq!(Date::from_num_days(LAST_DAY + 1), None);
    assert_eq!(Date::from_num_days(1), Some(Date { days: 1 }));
    assert!(!Date { days: 0 }.is_valid());
    assert_eq!(Date { days: 0 }.year(), None);
    assert_eq!(Date { days: -5 }.month(), None);
    assert_eq!(Date { days: LAST_DAY + 1 }.day(), None);
}

#[test]
fn whole_years_wait_for_the_birthday() {
    let born = ymd(2030, 6, 15);
    assert_eq!(ymd(2048, 6, 14).years_since(born), Some(17));
    assert_eq!(ymd(2048, 6, 15).years_since(born), Some(18));
    assert_eq!(ymd(2048, 7, 1).years_since(born), Some(18));
    assert_eq!(ymd(2030, 6, 15).years_since(born), Some(0));
    assert_eq!(ymd(2030, 6, 14).years_since(born), None);
    assert_eq!(ymd(2048, 6, 14).age(born), 17);
    assert_eq!(ymd(2020, 1, 1).age(born), 0);
    assert_eq!(Date { days: 0 }.years_since(born), None);
}

#[test]
fn months_count_the_boundaries_crossed() {
    let born = ymd(2048, 1, 31);
    assert_eq!(ymd(2048, 2, 1).age_in_months(born), 1);
    assert_eq!(ymd(2049, 7, 1).age_in_months(born), 18);
    assert_eq!(ymd(2049, 8, 1).age_in_months(born), 19);
    assert_eq!(ymd(2047, 12, 31).age_in_months(born), -1);
}

#[test]
fn two_years_back_is_twenty_four_months_back() {
    assert_eq!(ymd(2050, 1, 1).minus_months(24), Some(ymd(2048, 1, 1)));
    assert_eq!(ymd(2050, 3, 31).minus_months(1), Some(ymd(2050, 2, 28)));
    assert_eq!(ymd(1, 1, 15).minus_months(1), None);
    assert_eq!(Date { days: 0 }.minus_months(1), None);
}

#[test]
fn days_add_up() {
    let date = ymd(2050, 1, 1);
    assert_eq!(date.plus_days(31), ymd(2050, 2, 1));
    assert_eq!(date.plus_days(280).days, 748_663);
    assert_eq!(Date { days: i32::MAX - 1 }.plus_days(5).days, i32::MAX);
    assert_eq!(ymd(2050, 2, 1).days_since(date), 31);
    assert_eq!(date.days_since(ymd(2050, 2, 1)), -31);
}

#[test]
fn a_birthday_returns_on_its_month_and_day() {
    let born = ymd(2030, 6, 15);
    assert!(ymd(2048, 6, 15).is_birthday_of(born));
    assert!(!ymd(2048, 6, 16).is_birthday_of(born));
    assert!(!ymd(2048, 7, 15).is_birthday_of(born));
    assert!(ymd(2048, 6, 1).is_month_day(6, 1));
    assert!(!ymd(2048, 6, 2).is_month_day(6, 1));
    assert!(!Date { days: 0 }.is_month_day(12, 31));
}

#[test]
fn a_day_after_new_years_eve_opens_a_month() {
    let eve = ymd(2049, 12, 31);
    let mut game_date = GameDate { date: eve };
    let (changed, month) = update_date(&mut game_date);
    assert_eq!(game_date.date, ymd(2050, 1, 1));
    assert_eq!(changed.date, game_date.date);
    assert!(month.is_some());
}

#[test]
fn a_day_in_the_middle_of_a_month_opens_none() {
    let mut game_date = GameDate { date: ymd(2050, 1, 1) };
    let (changed, month) = update_date(&mut game_date);
    assert_eq!(game_date.date.days, 748_384);
    assert_eq!(changed.date.days, 748_384);
    assert!(month.is_none());
}

#[test]
fn a_year_has_twelve_months() {
    let mut game_date = GameDate { date: ymd(2050, 1, 1) };
    let mut months = 0;
    for _ in 0..365 {
        let (_, month) = update_date(&mut game_date);
        if month.is_some() {
            months += 1;
        }
    }
    assert_eq!(months, 12);
    assert_eq!(game_date.date, ymd(2051, 1, 1));
}

#[test]
fn a_notice_carries_its_date() {
    assert_eq!(DateChanged::from_date(ymd(2050, 5, 5)).date, ymd(2050, 5, 5));
}

#[test]
fn past_the_last_day_the_days_count_on_without_months() {
    let mut game_date = GameDate { date: Date { days: LAST_DAY } };
    let (changed, month) = update_date(&mut game_date);
    assert_eq!(game_date.date.days, LAST_DAY + 1);
    assert_eq!(changed.date.days, LAST_DAY + 1);
    assert!(month.is_none());
    let mut early = GameDate { date: Date { days: 0 } };
    let (_, month) = update_date(&mut early);
    assert_eq!(early.date.days, 1);
    assert!(month.is_none());
}

#[test]
fn months_taken_off_are_months_of_age() {
    let date = ymd(2050, 3, 31);
    for months in [0, 1, 13, 24, 240] {
        let earlier = date.minus_months(months).unwrap();
        assert_eq!(date.age_in_months(earlier), months as i64);
    }
}

#[test]
fn a_date_exists_for_the_days_that_the_month_and_the_year_have() {
    for year in [1, 1900, 2000, 2048, 2049, 2100, 9999] {
        let leap = (year % 4 == 0 && year % 100 != 0) || year % 400 == 0;
        for month in 0..14u32 {
            let length = match month {
                2 => if leap { 29 } else { 28 },
                4 | 6 | 9 | 11 => 30,
                1 | 3 | 5 | 7 | 8 | 10 | 12 => 31,
                _ => 0,
            };
            for day in 0..33u32 {
                let date = Date::from_ymd(year, month, day);
                assert_eq!(date.is_some(), 1 <= day && day <= length);
                if let Some(date) = date {
                    assert!(date.is_valid());
                    assert_eq!(date.year(), Some(year));
                }
            }
        }
        for ordinal in [0u32, 1, 59, 60, 365, 366, 367] {
            let date = Date::from_yo(year, ordinal);
            let days = if leap { 366 } else { 365 };
            assert_eq!(date.is_some(), 1 <= ordinal && ordinal <= days);
        }
    }
}
