use datetime::{get_day, is_leap_year, DateTime, Day, DtCache, Month};

#[test]
fn test_from_secs() {
    let secs = 842282624;

    let date = DateTime::from_secs(secs);

    assert_eq!(date.year(), 1996);
    assert_eq!(date.month(), Month::September);
    assert_eq!(date.day(), Day::Monday);
    assert_eq!(date.date(), 9);
    assert_eq!(date.hour(), 15);
    assert_eq!(date.minute(), 23);
    assert_eq!(date.second(), 44);
}

#[test]
fn test_add() {
    let date = DateTime::from_secs(123456789);
    let date2 = DateTime::from_secs(234567890);

    let date = date.add(&date2);

    assert_eq!(date.year(), 1981);
    assert_eq!(date.month(), Month::May);
    assert_eq!(date.day(), Day::Wednesday);
    assert_eq!(date.date(), 6);
    assert_eq!(date.hour(), 19);
    assert_eq!(date.minute(), 17);
    assert_eq!(date.second(), 59);
}

#[test]
fn test_add_assign() {
    let mut date = DateTime::from_secs(123456789);
    let date2 = DateTime::from_secs(234567890);

    date.add_assign(&date2);

    assert_eq!(date.year(), 1981);
    assert_eq!(date.month(), Month::May);
    assert_eq!(date.day(), Day::Wednesday);
    assert_eq!(date.date(), 6);
    assert_eq!(date.hour(), 19);
    assert_eq!(date.minute(), 17);
    assert_eq!(date.second(), 59);
}

#[test]
fn time_stamp_of_example() {
    let date = DateTime::from_secs(842282624);
    assert_eq!(date.as_time_stamp(), "Mon Sep 9, 1996  15:23:44 (UTC)");
}

#[test]
fn epoch_fields() {
    let date = DateTime::from_secs(0);
    assert_eq!(date.secs(), 0);
    assert_eq!(date.year(), 1970);
    assert_eq!(date.month(), Month::January);
    assert_eq!(date.day(), Day::Thursday);
    assert_eq!(date.date(), 1);
    assert_eq!(date.hour(), 0);
    assert_eq!(date.minute(), 0);
    assert_eq!(date.second(), 0);
    assert_eq!(date.as_time_stamp(), "Thu Jan 1, 1970  0:00:00 (UTC)");
}

#[test]
fn leap_year_rule() {
    assert!(is_leap_year(2000));
    assert!(!is_leap_year(1900));
    assert!(is_leap_year(2004));
    assert!(!is_leap_year(2001));
    assert!(!is_leap_year(1970));
    assert!(is_leap_year(1972));
}

#[test]
fn last_second_of_year_rolls_over() {
    let mut date = DateTime::from_secs(946684799);
    assert_eq!(date.as_time_stamp(), "Fri Dec 31, 1999  23:59:59 (UTC)");
    date.add_assign(&DateTime::from_secs(1));
    assert_eq!(date.secs(), 946684800);
    assert_eq!(date.year(), 2000);
    assert_eq!(date.month(), Month::January);
    assert_eq!(date.date(), 1);
    assert_eq!(date.hour(), 0);
    assert_eq!(date.minute(), 0);
    assert_eq!(date.second(), 0);
    assert_eq!(date.as_time_stamp(), "Sat Jan 1, 2000  0:00:00 (UTC)");
}

#[test]
fn leap_days() {
    let date = DateTime::from_secs(951782400);
    assert_eq!(date.as_time_stamp(), "Tue Feb 29, 2000  0:00:00 (UTC)");
    let date = DateTime::from_secs(1709164800);
    assert_eq!(date.as_time_stamp(), "Thu Feb 29, 2024  0:00:00 (UTC)");
    let date = DateTime::from_secs(4102444799);
    assert_eq!(date.as_time_stamp(), "Thu Dec 31, 2099  23:59:59 (UTC)");
}

#[test]
fn weekday_repeats_weekly() {
    for s in [0usize, 86399, 842282624, 946684799] {
        assert_eq!(get_day(s), get_day(s + 7 * 86400));
    }
    assert_eq!(get_day(842282624 + 7 * 86400), Day::Monday);
    assert_eq!(get_day(86400), Day::Friday);
    assert_eq!(get_day(3 * 86400), Day::Sunday);
}

#[test]
fn repeated_reads_agree() {
    let date = DateTime::from_secs(842282624);
    assert_eq!(date.year(), 1996);
    assert_eq!(date.year(), 1996);
    assert_eq!(date.as_time_stamp(), date.as_time_stamp());
    assert_eq!(date.date(), 9);
}

#[test]
fn add_assign_drops_cached_fields() {
    let mut date = DateTime::from_secs(842282624);
    assert_eq!(date.year(), 1996);
    assert_eq!(date.date(), 9);
    date.add_assign(&DateTime::from_secs(7 * 86400 + 3600));
    assert_eq!(date.year(), 1996);
    assert_eq!(date.date(), 16);
    assert_eq!(date.hour(), 16);
    assert_eq!(date.as_time_stamp(), "Mon Sep 16, 1996  16:23:44 (UTC)");
}

#[test]
fn converter_fields() {
    let c = DtCache::from_secs(842282624);
    assert_eq!(
        c,
        DtCache {
            year: 1996,
            month: Month::September,
            day: Day::Monday,
            date: 9,
            hour: 15,
            minute: 23,
            second: 44,
        }
    );
    let c = DtCache::from_secs(31535999);
    assert_eq!((c.year, c.month, c.date, c.hour), (1970, Month::December, 31, 23));
    let c = DtCache::from_secs(31536000);
    assert_eq!((c.year, c.month, c.date, c.day), (1971, Month::January, 1, Day::Friday));
}
