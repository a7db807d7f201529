//! Proleptic Gregorian calendar model: dates as year/month/day with a
//! validity invariant, a linear day index for date arithmetic, and weekday
//! computation.

use vstd::arithmetic::div_mod::{
    lemma_div_is_ordered, lemma_div_is_ordered_by_denominator, lemma_fundamental_div_mod,
    lemma_fundamental_div_mod_converse, lemma_mod_bound,
};
use vstd::prelude::*;

verus! {

/// Highest day index the calendar model covers: the index of the last day of
/// year `MAX_YEAR`.
pub const MAX_DAY_INDEX: u64 = 3652424;

/// A calendar date. Valid dates satisfy [`Date::wf`].
#[derive(Clone, Copy, Debug, PartialEq, Eq, Structural)]
pub struct Date {
    pub year: u32,
    pub month: u32,
    pub day: u32,
}

/// A time of day with second precision. Valid times satisfy [`TimeOfDay::wf`].
#[derive(Clone, Copy, Debug, PartialEq, Eq, Structural)]
pub struct TimeOfDay {
    pub hour: u32,
    pub minute: u32,
    pub second: u32,
}

impl TimeOfDay {
    pub open spec fn wf(self) -> bool {
        self.hour < 24 && self.minute < 60 && self.second < 60
    }

    /// The first second of a day.
    pub fn midnight() -> (r: TimeOfDay)
        ensures
            r == (TimeOfDay { hour: 0u32, minute: 0u32, second: 0u32 }),
    {
        TimeOfDay { hour: 0, minute: 0, second: 0 }
    }
}

/// Leap year rule of the proleptic Gregorian calendar.
pub open spec fn is_leap_year(y: int) -> bool {
    (y % 4 == 0 && y % 100 != 0) || y % 400 == 0
}

/// Days in a month; zero for month numbers outside 1..=12.
pub open spec fn days_in_month_of(y: int, m: int) -> int {
    if m == 1 {
        31
    } else if m == 2 {
        if is_leap_year(y) {
            29
        } else {
            28
        }
    } else if m == 3 {
        31
    } else if m == 4 {
        30
    } else if m == 5 {
        31
    } else if m == 6 {
        30
    } else if m == 7 {
        31
    } else if m == 8 {
        31
    } else if m == 9 {
        30
    } else if m == 10 {
        31
    } else if m == 11 {
        30
    } else if m == 12 {
        31
    } else {
        0
    }
}

/// Number of leap years in `[0, y)`; year zero counts as a leap year.
pub open spec fn leap_years_before(y: int) -> int {
    if y <= 0 {
        0
    } else {
        1 + (y - 1) / 4 - (y - 1) / 100 + (y - 1) / 400
    }
}

/// Days in all years before `y`, counting from year zero.
pub open spec fn days_before_year(y: int) -> int {
    365 * y + leap_years_before(y)
}

/// Days in the months of year `y` before month `m`; for `m > 12` the whole
/// year.
pub open spec fn days_before_month(y: int, m: int) -> int {
    let leap_extra: int = if m > 2 && is_leap_year(y) {
        1
    } else {
        0
    };
    leap_extra + if m <= 1 {
        0int
    } else if m == 2 {
        31
    } else if m == 3 {
        59
    } else if m == 4 {
        90
    } else if m == 5 {
        120
    } else if m == 6 {
        151
    } else if m == 7 {
        181
    } else if m == 8 {
        212
    } else if m == 9 {
        243
    } else if m == 10 {
        273
    } else if m == 11 {
        304
    } else if m == 12 {
        334
    } else {
        365
    }
}

impl Date {
    /// A valid calendar date within the representable year range.
    pub open spec fn wf(self) -> bool {
        self.year <= crate::MAX_YEAR && 1 <= self.month <= 12 && 1 <= self.day
            && self.day as int <= days_in_month_of(self.year as int, self.month as int)
    }

    /// Linear index of the date: days since the first day of year zero.
    pub open spec fn day_index_of(self) -> int {
        days_before_year(self.year as int) + days_before_month(self.year as int, self.month as int)
            + self.day - 1
    }

    /// Weekday of the date, numbered Monday = 0 through Sunday = 6.
    pub open spec fn weekday_of(self) -> int {
        (self.day_index_of() + 5) % 7
    }
}

/// The unique valid date with the given day index (meaningful for indexes in
/// `0..=MAX_DAY_INDEX`).
pub open spec fn date_from_index(idx: int) -> Date {
    choose|d: Date| d.wf() && d.day_index_of() == idx
}

/// Days of a weekday enumeration, numbered as `Date::weekday_of` numbers
/// them.
#[derive(Clone, Copy, Debug, PartialEq, Eq, Structural)]
pub enum Weekday {
    Mon,
    Tue,
    Wed,
    Thu,
    Fri,
    Sat,
    Sun,
}

/// Number of a weekday, Monday = 0 through Sunday = 6.
pub open spec fn weekday_number(w: Weekday) -> int {
    match w {
        Weekday::Mon => 0,
        Weekday::Tue => 1,
        Weekday::Wed => 2,
        Weekday::Thu => 3,
        Weekday::Fri => 4,
        Weekday::Sat => 5,
        Weekday::Sun => 6,
    }
}

/// Executable weekday numbering.
pub fn weekday_code(w: Weekday) -> (r: u32)
    ensures
        r == weekday_number(w),
{
    match w {
        Weekday::Mon => 0,
        Weekday::Tue => 1,
        Weekday::Wed => 2,
        Weekday::Thu => 3,
        Weekday::Fri => 4,
        Weekday::Sat => 5,
        Weekday::Sun => 6,
    }
}

/// Executable leap year rule.
pub fn is_leap_year_exec(y: u32) -> (r: bool)
    ensures
        r == is_leap_year(y as int),
{
    (y % 4 == 0 && y % 100 != 0) || y % 400 == 0
}

/// Executable days-in-month table.
pub fn days_in_month(y: u32, m: u32) -> (r: u32)
    ensures
        r == days_in_month_of(y as int, m as int),
{
    if m == 2 {
        if is_leap_year_exec(y) {
            29
        } else {
            28
        }
    } else if m == 4 || m == 6 || m == 9 || m == 11 {
        30
    } else if 1 <= m && m <= 12 {
        31
    } else {
        0
    }
}

/// Executable day index.
pub fn day_index(d: Date) -> (r: u64)
    requires
        d.wf(),
    ensures
        r == d.day_index_of(),
{
    let y = d.year as u64;
    let leaps: u64 = if y == 0 {
        0
    } else {
        let q4 = (y - 1) / 4;
        let q100 = (y - 1) / 100;
        let q400 = (y - 1) / 400;
        proof {
            lemma_div_is_ordered_by_denominator(y - 1, 4, 100);
        }
        1 + q4 - q100 + q400
    };
    let leap_extra: u64 = if d.month > 2 && is_leap_year_exec(d.year) {
        1
    } else {
        0
    };
    let before_month: u64 = if d.month <= 1 {
        0
    } else if d.month == 2 {
        31
    } else if d.month == 3 {
        59
    } else if d.month == 4 {
        90
    } else if d.month == 5 {
        120
    } else if d.month == 6 {
        151
    } else if d.month == 7 {
        181
    } else if d.month == 8 {
        212
    } else if d.month == 9 {
        243
    } else if d.month == 10 {
        273
    } else if d.month == 11 {
        304
    } else {
        334
    };
    365 * y + leaps + leap_extra + before_month + (d.day as u64) - 1
}

/// Executable weekday, as a number (Monday = 0).
pub fn weekday_num(d: Date) -> (r: u32)
    requires
        d.wf(),
    ensures
        r == d.weekday_of(),
        r < 7,
{
    let idx = day_index(d);
    proof {
        lemma_mod_bound(d.day_index_of() + 5, 7);
    }
    ((idx + 5) % 7) as u32
}

/// Executable weekday.
pub fn weekday(d: Date) -> (r: Weekday)
    requires
        d.wf(),
    ensures
        weekday_number(r) == d.weekday_of(),
{
    let n = weekday_num(d);
    match n {
        0 => Weekday::Mon,
        1 => Weekday::Tue,
        2 => Weekday::Wed,
        3 => Weekday::Thu,
        4 => Weekday::Fri,
        5 => Weekday::Sat,
        _ => Weekday::Sun,
    }
}

/// Stepping the quotient: dividing `n` rather than `n - 1` adds one exactly
/// when `k` divides `n`.
proof fn lemma_div_step(n: int, k: int)
    requires
        n >= 1,
        k >= 1,
    ensures
        n / k - (n - 1) / k == if n % k == 0 {
            1int
        } else {
            0int
        },
{
    lemma_fundamental_div_mod(n, k);
    lemma_mod_bound(n, k);
    let q = n / k;
    let r = n % k;
    if r == 0 {
        assert((q - 1) * k + (k - 1) == k * q - 1) by (nonlinear_arith);
        lemma_fundamental_div_mod_converse(n - 1, k, q - 1, k - 1);
    } else {
        assert(q * k == k * q) by (nonlinear_arith);
        lemma_fundamental_div_mod_converse(n - 1, k, q, r - 1);
    }
}

/// A multiple of 100 is a multiple of 4; a multiple of 400 is a multiple of
/// 100 and of 4.
proof fn lemma_divisibility_chain(y: int)
    ensures
        y % 400 == 0 ==> y % 100 == 0,
        y % 100 == 0 ==> y % 4 == 0,
{
    if y % 400 == 0 {
        lemma_fundamental_div_mod(y, 400);
        assert((4 * (y / 400)) * 100 == 400 * (y / 400)) by (nonlinear_arith);
        lemma_fundamental_div_mod_converse(y, 100, 4 * (y / 400), 0);
    }
    if y % 100 == 0 {
        lemma_fundamental_div_mod(y, 100);
        assert((25 * (y / 100)) * 4 == 100 * (y / 100)) by (nonlinear_arith);
        lemma_fundamental_div_mod_converse(y, 4, 25 * (y / 100), 0);
    }
}

/// Counting step: year `y` adds itself to the leap-year count exactly when it
/// is a leap year.
proof fn lemma_leap_years_before_step(y: int)
    requires
        y >= 0,
    ensures
        leap_years_before(y + 1) == leap_years_before(y) + if is_leap_year(y) {
            1int
        } else {
            0int
        },
{
    if y == 0 {
        assert(leap_years_before(1) == 1);
    } else {
        lemma_div_step(y, 4);
        lemma_div_step(y, 100);
        lemma_div_step(y, 400);
        lemma_divisibility_chain(y);
    }
}

/// A year contributes 365 days, or 366 in a leap year.
pub proof fn lemma_days_before_year_step(y: int)
    requires
        y >= 0,
    ensures
        days_before_year(y + 1) == days_before_year(y) + if is_leap_year(y) {
            366int
        } else {
            365int
        },
{
    lemma_leap_years_before_step(y);
}

/// `days_before_year` grows with the year.
proof fn lemma_days_before_year_mono(y1: int, y2: int)
    requires
        0 <= y1 <= y2,
    ensures
        days_before_year(y1) <= days_before_year(y2),
    decreases y2 - y1,
{
    if y1 < y2 {
        lemma_days_before_year_step(y2 - 1);
        lemma_days_before_year_mono(y1, y2 - 1);
    }
}

/// Every day of a valid date falls inside its year.
proof fn lemma_day_in_year(d: Date)
    requires
        d.wf(),
    ensures
        days_before_year(d.year as int) <= d.day_index_of() < days_before_year(d.year as int + 1),
{
    lemma_days_before_year_step(d.year as int);
}

/// The day index of every valid date lies in `0..=MAX_DAY_INDEX`.
pub proof fn lemma_day_index_in_range(d: Date)
    requires
        d.wf(),
    ensures
        0 <= d.day_index_of() <= MAX_DAY_INDEX as int,
{
    lemma_day_in_year(d);
    lemma_days_before_year_mono(0, d.year as int);
    lemma_days_before_year_mono(d.year as int + 1, crate::MAX_YEAR as int + 1);
    assert(days_before_year(crate::MAX_YEAR as int + 1) == MAX_DAY_INDEX as int + 1);
}

/// Two valid dates with the same day index are the same date.
pub proof fn lemma_day_index_injective(a: Date, b: Date)
    requires
        a.wf(),
        b.wf(),
        a.day_index_of() == b.day_index_of(),
    ensures
        a == b,
{
    lemma_day_in_year(a);
    lemma_day_in_year(b);
    if a.year < b.year {
        lemma_days_before_year_mono(a.year as int + 1, b.year as int);
        assert(false);
    }
    if b.year < a.year {
        lemma_days_before_year_mono(b.year as int + 1, a.year as int);
        assert(false);
    }
    assert(a.year == b.year);
    assert(a.month == b.month && a.day == b.day) by {
        let y = a.year as int;
        let am = a.month as int;
        let bm = b.month as int;
        if am < bm {
            assert(days_before_month(y, am) + days_in_month_of(y, am) <= days_before_month(y, bm));
            assert(false);
        }
        if bm < am {
            assert(days_before_month(y, bm) + days_in_month_of(y, bm) <= days_before_month(y, am));
            assert(false);
        }
    }
}

/// A valid date is what `date_from_index` designates at its index.
pub proof fn lemma_date_from_index(d: Date)
    requires
        d.wf(),
    ensures
        date_from_index(d.day_index_of()) == d,
{
    let idx = d.day_index_of();
    assert(exists|x: Date| x.wf() && x.day_index_of() == idx) by {
        assert(d.wf() && d.day_index_of() == idx);
    }
    lemma_day_index_injective(date_from_index(idx), d);
}

/// Stepping a day advances the weekday cyclically.
pub proof fn lemma_weekday_step(idx: int)
    ensures
        ((idx + 1) + 5) % 7 == if (idx + 5) % 7 + 1 < 7 {
            (idx + 5) % 7 + 1
        } else {
            0int
        },
{
    lemma_fundamental_div_mod(idx + 5, 7);
    lemma_mod_bound(idx + 5, 7);
    let q = (idx + 5) / 7;
    let w = (idx + 5) % 7;
    if w + 1 < 7 {
        lemma_fundamental_div_mod_converse(idx + 6, 7, q, w + 1);
    } else {
        lemma_fundamental_div_mod_converse(idx + 6, 7, q + 1, 0);
    }
}

/// Stepping a whole week leaves the weekday unchanged.
pub proof fn lemma_weekday_plus7(idx: int)
    ensures
        ((idx + 7) + 5) % 7 == (idx + 5) % 7,
{
    lemma_fundamental_div_mod(idx + 5, 7);
    lemma_mod_bound(idx + 5, 7);
    let q = (idx + 5) / 7;
    let w = (idx + 5) % 7;
    lemma_fundamental_div_mod_converse(idx + 12, 7, q + 1, w);
}

/// The calendar successor of a valid date (the date one day later).
pub fn next_day(d: Date) -> (r: Date)
    requires
        d.wf(),
        d.day_index_of() < MAX_DAY_INDEX as int,
    ensures
        r.wf(),
        r.day_index_of() == d.day_index_of() + 1,
{
    let dim = days_in_month(d.year, d.month);
    if d.day < dim {
        Date { year: d.year, month: d.month, day: d.day + 1 }
    } else if d.month < 12 {
        proof {
            assert(days_before_month(d.year as int, d.month as int + 1) == days_before_month(
                d.year as int,
                d.month as int,
            ) + days_in_month_of(d.year as int, d.month as int));
        }
        Date { year: d.year, month: d.month + 1, day: 1 }
    } else {
        proof {
            assert(d.month == 12 && d.day == 31);
            if d.year == crate::MAX_YEAR {
                assert(d.day_index_of() == MAX_DAY_INDEX as int);
            }
            lemma_days_before_year_step(d.year as int);
        }
        Date { year: d.year + 1, month: 1, day: 1 }
    }
}

/// The date `n` days after `start`.
pub fn add_days(start: Date, n: u32) -> (r: Date)
    requires
        start.wf(),
        start.day_index_of() + n <= MAX_DAY_INDEX as int,
    ensures
        r.wf(),
        r.day_index_of() == start.day_index_of() + n,
{
    let mut d = start;
    let mut i: u32 = 0;
    while i < n
        invariant
            i <= n,
            d.wf(),
            d.day_index_of() == start.day_index_of() + i,
            start.day_index_of() + n <= MAX_DAY_INDEX as int,
        decreases n - i,
    {
        d = next_day(d);
        i += 1;
    }
    d
}

} // verus!
