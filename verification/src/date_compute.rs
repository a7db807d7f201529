//! Date computation for publish scheduling: ISO 8601 parsing, timestamp
//! rendering, the next occurrence of a weekday, and week arithmetic.

use crate::calendar::{
    add_days, lemma_weekday_plus7, lemma_weekday_step, next_day, weekday_code, weekday_num, Date,
    TimeOfDay, Weekday, MAX_DAY_INDEX,
};
use crate::error::Error;
use crate::strutil::{
    append_four_digits, append_two_digits, digit_val, digit_value, four_digits, is_digit,
    is_digit_exec, two_digits,
};
use chrono::Datelike;
use vstd::prelude::*;

verus! {

// ---------------------------------------------------------------------------
// Parsing
// ---------------------------------------------------------------------------

/// The date encoded by a well-formed `YYYY-MM-DD` string.
pub open spec fn parsed_date(s: Seq<char>) -> Date {
    Date {
        year: (1000 * digit_val(s[0]) + 100 * digit_val(s[1]) + 10 * digit_val(s[2]) + digit_val(
            s[3],
        )) as u32,
        month: (10 * digit_val(s[5]) + digit_val(s[6])) as u32,
        day: (10 * digit_val(s[8]) + digit_val(s[9])) as u32,
    }
}

/// A string is a well-formed ISO calendar date: `YYYY-MM-DD` with in-range
/// month and day.
pub open spec fn date_string_wf(s: Seq<char>) -> bool {
    s.len() == 10 && s[4] == '-' && s[7] == '-' && is_digit(s[0]) && is_digit(s[1]) && is_digit(
        s[2],
    ) && is_digit(s[3]) && is_digit(s[5]) && is_digit(s[6]) && is_digit(s[8]) && is_digit(s[9])
        && parsed_date(s).wf()
}

/// The time encoded by a well-formed `HH:MM:SS` string.
pub open spec fn parsed_time(s: Seq<char>) -> TimeOfDay {
    TimeOfDay {
        hour: (10 * digit_val(s[0]) + digit_val(s[1])) as u32,
        minute: (10 * digit_val(s[3]) + digit_val(s[4])) as u32,
        second: (10 * digit_val(s[6]) + digit_val(s[7])) as u32,
    }
}

/// A string is a well-formed clock time: `HH:MM:SS` with in-range fields.
pub open spec fn time_string_wf(s: Seq<char>) -> bool {
    s.len() == 8 && s[2] == ':' && s[5] == ':' && is_digit(s[0]) && is_digit(s[1]) && is_digit(
        s[3],
    ) && is_digit(s[4]) && is_digit(s[6]) && is_digit(s[7]) && parsed_time(s).wf()
}

/// A calendar date together with a time of day.
#[derive(Clone, Copy, Debug, PartialEq, Eq, Structural)]
pub struct DateTime {
    pub date: Date,
    pub time: TimeOfDay,
}

/// A string is a well-formed date-time: either a date alone or
/// `YYYY-MM-DD HH:MM:SS`.
pub open spec fn datetime_string_wf(s: Seq<char>) -> bool {
    if s.len() == 10 {
        date_string_wf(s)
    } else {
        s.len() == 19 && date_string_wf(s.take(10)) && s[10] == ' ' && time_string_wf(s.skip(11))
    }
}

/// The date-time a well-formed string encodes; a date alone means midnight.
pub open spec fn parsed_datetime(s: Seq<char>) -> DateTime {
    if s.len() == 10 {
        DateTime { date: parsed_date(s), time: (TimeOfDay { hour: 0, minute: 0, second: 0 }) }
    } else {
        DateTime { date: parsed_date(s.take(10)), time: parsed_time(s.skip(11)) }
    }
}

/// Date from an ISO 8601 `YYYY-MM-DD` string; rejects malformed strings and
/// out-of-range months and days.
pub fn parse_iso_date(s: &str) -> (r: Result<Date, Error>)
    ensures
        r is Ok <==> date_string_wf(s@),
        r matches Ok(d) ==> d == parsed_date(s@) && d.wf(),
        r matches Err(e) ==> e matches Error::Parse { field, value } && field@ == "date"@
            && value@ == s@,
{
    let len = s.unicode_len();
    if len == 10 {
        let c0 = s.get_char(0);
        let c1 = s.get_char(1);
        let c2 = s.get_char(2);
        let c3 = s.get_char(3);
        let c4 = s.get_char(4);
        let c5 = s.get_char(5);
        let c6 = s.get_char(6);
        let c7 = s.get_char(7);
        let c8 = s.get_char(8);
        let c9 = s.get_char(9);
        if c4 == '-' && c7 == '-' && is_digit_exec(c0) && is_digit_exec(c1) && is_digit_exec(c2)
            && is_digit_exec(c3) && is_digit_exec(c5) && is_digit_exec(c6) && is_digit_exec(c8)
            && is_digit_exec(c9) {
            let year = 1000 * digit_value(c0) + 100 * digit_value(c1) + 10 * digit_value(c2)
                + digit_value(c3);
            let month = 10 * digit_value(c5) + digit_value(c6);
            let day = 10 * digit_value(c8) + digit_value(c9);
            if 1 <= month && month <= 12 && 1 <= day && day <= crate::calendar::days_in_month(
                year,
                month,
            ) {
                return Ok(Date { year, month, day });
            }
        }
    }
    Err(Error::Parse { field: String::from_str("date"), value: s.to_owned() })
}

/// Time of day from an `HH:MM:SS` string; rejects malformed strings and
/// out-of-range hours, minutes and seconds.
pub fn parse_clock_time(s: &str) -> (r: Result<TimeOfDay, Error>)
    ensures
        r is Ok <==> time_string_wf(s@),
        r matches Ok(t) ==> t == parsed_time(s@) && t.wf(),
        r matches Err(e) ==> e matches Error::Parse { field, value } && field@ == "time"@
            && value@ == s@,
{
    let len = s.unicode_len();
    if len == 8 {
        let c0 = s.get_char(0);
        let c1 = s.get_char(1);
        let c2 = s.get_char(2);
        let c3 = s.get_char(3);
        let c4 = s.get_char(4);
        let c5 = s.get_char(5);
        let c6 = s.get_char(6);
        let c7 = s.get_char(7);
        if c2 == ':' && c5 == ':' && is_digit_exec(c0) && is_digit_exec(c1) && is_digit_exec(c3)
            && is_digit_exec(c4) && is_digit_exec(c6) && is_digit_exec(c7) {
            let hour = 10 * digit_value(c0) + digit_value(c1);
            let minute = 10 * digit_value(c3) + digit_value(c4);
            let second = 10 * digit_value(c6) + digit_value(c7);
            if hour < 24 && minute < 60 && second < 60 {
                return Ok(TimeOfDay { hour, minute, second });
            }
        }
    }
    Err(Error::Parse { field: String::from_str("time"), value: s.to_owned() })
}

/// Date-time from an ISO 8601 string; the time part is optional and defaults
/// to midnight.
pub fn parse_iso_datetime(s: &str) -> (r: Result<DateTime, Error>)
    ensures
        r is Ok <==> datetime_string_wf(s@),
        r matches Ok(dt) ==> dt == parsed_datetime(s@) && dt.date.wf() && dt.time.wf(),
        r matches Err(e) ==> e matches Error::Parse { field, value } && field@ == "datetime"@
            && value@ == s@,
{
    let len = s.unicode_len();
    if len == 10 {
        match parse_iso_date(s) {
            Ok(d) => {
                return Ok(DateTime { date: d, time: TimeOfDay::midnight() });
            },
            Err(_) => {
                return Err(
                    Error::Parse { field: String::from_str("datetime"), value: s.to_owned() },
                );
            },
        }
    }
    if len == 19 {
        let date_part = s.substring_char(0, 10);
        let time_part = s.substring_char(11, 19);
        proof {
            assert(date_part@ =~= s@.take(10));
            assert(time_part@ =~= s@.skip(11));
        }
        if s.get_char(10) == ' ' {
            match parse_iso_date(date_part) {
                Ok(d) => {
                    match parse_clock_time(time_part) {
                        Ok(t) => {
                            return Ok(DateTime { date: d, time: t });
                        },
                        Err(_) => {},
                    }
                },
                Err(_) => {},
            }
        }
    }
    Err(Error::Parse { field: String::from_str("datetime"), value: s.to_owned() })
}

/// A date-only string and the same string with an explicit ` 00:00:00` time
/// suffix are the same date-time: both parse, or fail to parse, together,
/// and both mean midnight of the same day.
pub proof fn lemma_date_only_means_midnight(s: Seq<char>)
    requires
        s.len() == 10,
    ensures
        datetime_string_wf(s + " 00:00:00"@) <==> datetime_string_wf(s),
        datetime_string_wf(s) ==> parsed_datetime(s + " 00:00:00"@) == parsed_datetime(s),
{
    reveal_strlit(" 00:00:00");
    let suf = " 00:00:00"@;
    let s2 = s + suf;
    assert(suf.len() == 9);
    assert(s2.len() == 19);
    assert(s2.take(10) =~= s);
    assert(s2[10] == suf[0]);
    let t = s2.skip(11);
    assert(t =~= suf.skip(1));
    assert(t.len() == 8);
    assert(t[0] == '0' && t[1] == '0' && t[2] == ':' && t[3] == '0' && t[4] == '0' && t[5] == ':'
        && t[6] == '0' && t[7] == '0');
    assert(time_string_wf(t));
    assert(parsed_time(t) == (TimeOfDay { hour: 0u32, minute: 0u32, second: 0u32 }));
}

// ---------------------------------------------------------------------------
// Rendering
// ---------------------------------------------------------------------------

/// `YYYY-MM-DD` rendering of a date.
pub open spec fn date_chars(d: Date) -> Seq<char> {
    four_digits(d.year as int) + seq!['-'] + two_digits(d.month as int) + seq!['-'] + two_digits(
        d.day as int,
    )
}

/// `HH:MM:SS` rendering of a time.
pub open spec fn time_chars(t: TimeOfDay) -> Seq<char> {
    two_digits(t.hour as int) + seq![':'] + two_digits(t.minute as int) + seq![':'] + two_digits(
        t.second as int,
    )
}

/// UTC timestamp rendering with second precision and a trailing `Z`
/// designator.
pub open spec fn timestamp_chars(d: Date, t: TimeOfDay) -> Seq<char> {
    date_chars(d) + seq!['T'] + time_chars(t) + seq!['Z']
}

/// Render a date as `YYYY-MM-DD`.
pub fn format_date(d: Date) -> (r: String)
    requires
        d.wf(),
    ensures
        r@ == date_chars(d),
{
    let mut s = String::new();
    append_four_digits(&mut s, d.year);
    s.append("-");
    append_two_digits(&mut s, d.month);
    s.append("-");
    append_two_digits(&mut s, d.day);
    proof {
        reveal_strlit("-");
        assert("-"@ =~= seq!['-']);
        assert(s@ =~= date_chars(d));
    }
    s
}

/// Render a date and time as a UTC timestamp `YYYY-MM-DDTHH:MM:SSZ`.
pub fn format_timestamp(d: Date, t: TimeOfDay) -> (r: String)
    requires
        d.wf(),
        t.wf(),
    ensures
        r@ == timestamp_chars(d, t),
{
    let mut s = format_date(d);
    s.append("T");
    append_two_digits(&mut s, t.hour);
    s.append(":");
    append_two_digits(&mut s, t.minute);
    s.append(":");
    append_two_digits(&mut s, t.second);
    s.append("Z");
    proof {
        reveal_strlit("T");
        reveal_strlit(":");
        reveal_strlit("Z");
        assert("T"@ =~= seq!['T']);
        assert(":"@ =~= seq![':']);
        assert("Z"@ =~= seq!['Z']);
        assert(s@ =~= timestamp_chars(d, t));
    }
    s
}

// ---------------------------------------------------------------------------
// Weekday and week arithmetic
// ---------------------------------------------------------------------------

/// Days from a day with weekday `from` to the next strictly later day with
/// weekday `target` (a full week when they are equal).
pub open spec fn days_until_weekday(from: int, target: int) -> int {
    if from == target {
        7
    } else if target > from {
        target - from
    } else {
        target + 7 - from
    }
}

/// The next date strictly after `start` that falls on the requested weekday:
/// a full week later when `start` itself falls on it, otherwise within the
/// following six days.
pub fn coming_weekday(start: Date, weekday: Weekday) -> (r: Date)
    requires
        start.wf(),
        start.day_index_of() + 7 <= MAX_DAY_INDEX as int,
    ensures
        r.wf(),
        r.day_index_of() == start.day_index_of() + days_until_weekday(
            start.weekday_of(),
            crate::calendar::weekday_number(weekday),
        ),
        r.weekday_of() == crate::calendar::weekday_number(weekday),
        start.weekday_of() == crate::calendar::weekday_number(weekday) ==> r.day_index_of()
            == start.day_index_of() + 7,
        start.weekday_of() != crate::calendar::weekday_number(weekday) ==> start.day_index_of()
            < r.day_index_of() <= start.day_index_of() + 6,
{
    let wn0 = weekday_num(start);
    let target = weekday_code(weekday);
    if wn0 == target {
        let r = add_days(start, 7);
        proof {
            lemma_weekday_plus7(start.day_index_of());
        }
        return r;
    }
    let ghost du = days_until_weekday(start.weekday_of(), crate::calendar::weekday_number(weekday));
    proof {
        lemma_weekday_step(start.day_index_of());
    }
    let mut d = next_day(start);
    let mut i: u32 = 1;
    loop
        invariant
            start.wf(),
            d.wf(),
            1 <= i <= du,
            start.weekday_of() != crate::calendar::weekday_number(weekday),
            du == days_until_weekday(start.weekday_of(), crate::calendar::weekday_number(weekday)),
            1 <= du <= 6,
            target == crate::calendar::weekday_number(weekday),
            0 <= start.weekday_of() < 7,
            start.day_index_of() + 7 <= MAX_DAY_INDEX as int,
            d.day_index_of() == start.day_index_of() + i,
            d.weekday_of() == if start.weekday_of() + i < 7 {
                start.weekday_of() + i
            } else {
                start.weekday_of() + i - 7
            },
        decreases du - i,
    {
        let wd = weekday_num(d);
        if wd == target {
            return d;
        }
        proof {
            lemma_weekday_step(d.day_index_of());
        }
        d = next_day(d);
        i += 1;
    }
}

/// The date a whole number of weeks after `start`.
pub fn add_weeks(start: Date, weeks: u8) -> (r: Date)
    requires
        start.wf(),
        start.day_index_of() + 7 * (weeks as int) <= MAX_DAY_INDEX as int,
    ensures
        r.wf(),
        r.day_index_of() == start.day_index_of() + 7 * (weeks as int),
{
    add_days(start, 7 * (weeks as u32))
}

// ---------------------------------------------------------------------------
// The current date
// ---------------------------------------------------------------------------

/// Relies on chrono's `Local::now` and the `Datelike` accessors of
/// `NaiveDate`: the returned year/month/day triple is a valid proleptic
/// Gregorian calendar date, with the month in 1..=12 and the day within that
/// month.
#[verifier::external_body]
fn local_today_raw() -> (r: (i32, u32, u32))
    ensures
        1 <= r.1 <= 12,
        1 <= r.2,
        r.2 as int <= crate::calendar::days_in_month_of(r.0 as int, r.1 as int),
{
    let d = chrono::offset::Local::now().naive_local().date();
    (d.year(), d.month(), d.day())
}

/// Today's date by the local clock; an error if the clock reads a year the
/// calendar model cannot represent.
pub fn today() -> (r: Result<Date, Error>)
    ensures
        r matches Ok(d) ==> d.wf(),
        r matches Err(e) ==> e matches Error::Validation { field, value } && field@ == "today"@,
{
    let (y, m, d) = local_today_raw();
    if 0 <= y && y <= 9999 {
        Ok(Date { year: y as u32, month: m, day: d })
    } else {
        Err(
            Error::Validation {
                field: String::from_str("today"),
                value: String::from_str("year out of range"),
            },
        )
    }
}

} // verus!
