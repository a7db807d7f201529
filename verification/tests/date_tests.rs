use rsytup::calendar::{weekday, Date, TimeOfDay, Weekday};
use rsytup::date_compute::{
    add_weeks, coming_weekday, format_date, format_timestamp, parse_clock_time, parse_iso_date,
    parse_iso_datetime, today,
};
use rsytup::error::Error;

#[test]
fn test_coming_weekdays() {
    let thu = parse_iso_date("2021-09-02").unwrap();
    let fri = coming_weekday(thu, Weekday::Fri);
    assert_eq!(fri, parse_iso_date("2021-09-03").unwrap());
    let already_fri = parse_iso_date("2021-09-03").unwrap();
    let fri = coming_weekday(already_fri, Weekday::Fri);
    assert_eq!(fri, parse_iso_date("2021-09-10").unwrap());
}

#[test]
fn test_add_weeks() {
    let thu = parse_iso_date("2021-09-02").unwrap();
    let thu_p1w = add_weeks(thu, 1);
    assert_eq!(thu_p1w, parse_iso_date("2021-09-09").unwrap());
}

#[test]
fn test_parse_wo_time() {
    let thu1 = parse_iso_datetime("2021-09-02").unwrap();
    let thu2 = parse_iso_datetime("2021-09-02 00:00:00").unwrap();
    assert_eq!(thu1, thu2);
}

#[test]
fn parse_date_accepts_valid() {
    let d = parse_iso_date("2021-09-02").unwrap();
    assert_eq!(d, Date { year: 2021, month: 9, day: 2 });
    let leap = parse_iso_date("2020-02-29").unwrap();
    assert_eq!(leap, Date { year: 2020, month: 2, day: 29 });
}

#[test]
fn parse_date_rejects_malformed() {
    assert!(matches!(parse_iso_date("garbage"), Err(Error::Parse { .. })));
    assert!(matches!(parse_iso_date("2021-13-01"), Err(Error::Parse { .. })));
    assert!(matches!(parse_iso_date("2021-00-01"), Err(Error::Parse { .. })));
    assert!(matches!(parse_iso_date("2021-02-30"), Err(Error::Parse { .. })));
    assert!(matches!(parse_iso_date("2021-02-29"), Err(Error::Parse { .. })));
    assert!(matches!(parse_iso_date("2021-2-3"), Err(Error::Parse { .. })));
    assert!(matches!(parse_iso_date("2021/09/02"), Err(Error::Parse { .. })));
    assert!(matches!(parse_iso_date(""), Err(Error::Parse { .. })));
}

#[test]
fn parse_clock_time_validates_ranges() {
    let t = parse_clock_time("08:30:59").unwrap();
    assert_eq!(t, TimeOfDay { hour: 8, minute: 30, second: 59 });
    assert!(matches!(parse_clock_time("24:00:00"), Err(Error::Parse { .. })));
    assert!(matches!(parse_clock_time("08:60:00"), Err(Error::Parse { .. })));
    assert!(matches!(parse_clock_time("08:00:60"), Err(Error::Parse { .. })));
    assert!(matches!(parse_clock_time("8:00:00"), Err(Error::Parse { .. })));
}

#[test]
fn parse_datetime_rejects_malformed() {
    assert!(matches!(parse_iso_datetime("2021-09-02T08:00:00"), Err(Error::Parse { .. })));
    assert!(matches!(parse_iso_datetime("2021-09-02 25:00:00"), Err(Error::Parse { .. })));
    assert!(matches!(parse_iso_datetime("2021-09-99 08:00:00"), Err(Error::Parse { .. })));
}

#[test]
fn weekday_of_known_dates() {
    // 2021-09-02 was a Thursday, 2021-09-03 a Friday.
    assert_eq!(weekday(Date { year: 2021, month: 9, day: 2 }), Weekday::Thu);
    assert_eq!(weekday(Date { year: 2021, month: 9, day: 3 }), Weekday::Fri);
    // 2000-01-01 was a Saturday.
    assert_eq!(weekday(Date { year: 2000, month: 1, day: 1 }), Weekday::Sat);
    // 2020-02-29 was a Saturday.
    assert_eq!(weekday(Date { year: 2020, month: 2, day: 29 }), Weekday::Sat);
}

#[test]
fn coming_weekday_is_always_within_a_week() {
    let thu = parse_iso_date("2021-09-02").unwrap();
    assert_eq!(coming_weekday(thu, Weekday::Fri), parse_iso_date("2021-09-03").unwrap());
    assert_eq!(coming_weekday(thu, Weekday::Sat), parse_iso_date("2021-09-04").unwrap());
    assert_eq!(coming_weekday(thu, Weekday::Sun), parse_iso_date("2021-09-05").unwrap());
    assert_eq!(coming_weekday(thu, Weekday::Mon), parse_iso_date("2021-09-06").unwrap());
    assert_eq!(coming_weekday(thu, Weekday::Tue), parse_iso_date("2021-09-07").unwrap());
    assert_eq!(coming_weekday(thu, Weekday::Wed), parse_iso_date("2021-09-08").unwrap());
    assert_eq!(coming_weekday(thu, Weekday::Thu), parse_iso_date("2021-09-09").unwrap());
}

#[test]
fn add_weeks_crosses_year_boundaries() {
    let d = parse_iso_date("2020-12-24").unwrap();
    assert_eq!(add_weeks(d, 2), parse_iso_date("2021-01-07").unwrap());
    assert_eq!(add_weeks(d, 0), d);
    // 255 weeks = 1785 days.
    assert_eq!(
        add_weeks(parse_iso_date("2020-09-01").unwrap(), 255),
        parse_iso_date("2025-07-22").unwrap()
    );
}

#[test]
fn formats_timestamps_with_padding_and_z() {
    let d = Date { year: 987, month: 6, day: 5 };
    let t = TimeOfDay { hour: 8, minute: 0, second: 3 };
    assert_eq!(format_timestamp(d, t), "0987-06-05T08:00:03Z");
    assert_eq!(format_date(Date { year: 2021, month: 12, day: 24 }), "2021-12-24");
}

#[test]
fn today_is_a_valid_date() {
    let d = today().unwrap();
    assert!(1 <= d.month && d.month <= 12);
    assert!(1 <= d.day && d.day <= 31);
    assert!(d.year <= 9999);
}
