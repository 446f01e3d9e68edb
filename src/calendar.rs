//! The proleptic Gregorian calendar from 1970 on, in UTC, and the conversion
//! of a seconds count into calendar fields.

use vstd::prelude::*;

verus! {

/// A day of the week.
#[derive(Debug, Clone, Copy, PartialEq, Eq, Structural)]
pub enum Day {
    Sunday,
    Monday,
    Tuesday,
    Wednesday,
    Thursday,
    Friday,
    Saturday,
}

/// A month of the year.
#[derive(Debug, Clone, Copy, PartialEq, Eq, Structural)]
pub enum Month {
    January,
    February,
    March,
    April,
    May,
    June,
    July,
    August,
    September,
    October,
    November,
    December,
}

/// Whether `y` is a leap year of the Gregorian calendar.
pub open spec fn leap(y: int) -> bool {
    y % 400 == 0 || (y % 100 != 0 && y % 4 == 0)
}

pub open spec fn days_in_year(y: int) -> int {
    if leap(y) {
        366
    } else {
        365
    }
}

/// Days from 1970-01-01 to the first of January of year `y`.
pub open spec fn days_before_year(y: int) -> int
    decreases y - 1970,
{
    if y <= 1970 {
        0
    } else {
        days_before_year(y - 1) + days_in_year(y - 1)
    }
}

/// Length of month `m` (0 for January, 11 for December) of year `y`.
pub open spec fn days_in_month(y: int, m: int) -> int {
    if m == 1 {
        if leap(y) {
            29
        } else {
            28
        }
    } else if m == 3 || m == 5 || m == 8 || m == 10 {
        30
    } else {
        31
    }
}

/// Days from the first of January of year `y` to the first of month `m`.
pub open spec fn days_before_month(y: int, m: int) -> int
    decreases m,
{
    if m <= 0 {
        0
    } else {
        days_before_month(y, m - 1) + days_in_month(y, m - 1)
    }
}

pub open spec fn month_index(m: Month) -> int {
    match m {
        Month::January => 0,
        Month::February => 1,
        Month::March => 2,
        Month::April => 3,
        Month::May => 4,
        Month::June => 5,
        Month::July => 6,
        Month::August => 7,
        Month::September => 8,
        Month::October => 9,
        Month::November => 10,
        Month::December => 11,
    }
}

/// The weekday numbered `i`, counting from Sunday as 0.
pub open spec fn day_at(i: int) -> Day {
    if i == 0 {
        Day::Sunday
    } else if i == 1 {
        Day::Monday
    } else if i == 2 {
        Day::Tuesday
    } else if i == 3 {
        Day::Wednesday
    } else if i == 4 {
        Day::Thursday
    } else if i == 5 {
        Day::Friday
    } else {
        Day::Saturday
    }
}

/// The weekday of the day that lies `days` days after 1970-01-01, a Thursday.
pub open spec fn weekday_of(days: int) -> Day {
    day_at((days + 4) % 7)
}

/// Returns whether `year` is a leap year.
pub fn is_leap_year(year: usize) -> (r: bool)
    ensures
        r == leap(year as int),
{
    if year % 400 == 0 {
        true
    } else if year % 100 == 0 {
        false
    } else if year % 4 == 0 {
        true
    } else {
        false
    }
}

/// Returns the weekday of the instant `time` seconds after the epoch.
pub fn get_day(time: usize) -> (r: Day)
    ensures
        r == weekday_of(time as int / 86400),
{
    let day: usize = time / 24 / 60 / 60;
    proof {
        vstd::arithmetic::div_mod::lemma_div_denominator(time as int, 24, 60);
        vstd::arithmetic::div_mod::lemma_div_denominator(time as int, 1440, 60);
    }
    let day: usize = day + 4;
    let day: usize = day % 7;
    match day {
        0 => Day::Sunday,
        1 => Day::Monday,
        2 => Day::Tuesday,
        3 => Day::Wednesday,
        4 => Day::Thursday,
        5 => Day::Friday,
        _ => Day::Saturday,
    }
}

/// The calendar fields of one instant.
#[derive(Debug, Clone, Copy, PartialEq, Eq, Structural)]
pub struct DtCache {
    pub year: usize,
    pub month: Month,
    pub day: Day,
    pub date: usize,
    pub hour: usize,
    pub minute: usize,
    pub second: usize,
}

impl DtCache {
    /// Days from 1970-01-01 to the day these fields name.
    pub open spec fn day_number(&self) -> int {
        days_before_year(self.year as int) + days_before_month(self.year as int, month_index(self.month))
            + self.date - 1
    }

    pub open spec fn clock(&self) -> int {
        self.hour * 3600 + self.minute * 60 + self.second
    }

    /// Seconds from the epoch to the instant these fields name.
    pub open spec fn seconds(&self) -> int {
        self.day_number() * 86400 + self.clock()
    }

    /// The fields name a real instant and agree with one another.
    pub open spec fn wf(&self) -> bool {
        &&& self.year >= 1970
        &&& 1 <= self.date <= days_in_month(self.year as int, month_index(self.month))
        &&& self.hour < 24
        &&& self.minute < 60
        &&& self.second < 60
        &&& self.day == weekday_of(self.day_number())
    }

    /// The calendar fields of the instant `s` seconds after the epoch.
    pub open spec fn calendar(s: nat) -> DtCache {
        choose|c: DtCache| c.wf() && c.seconds() == s
    }
}

/// Month `m` (0 for January) of `year`, with its length in days.
fn month_table(year: usize, m: usize) -> (r: (Month, usize))
    requires
        m < 12,
    ensures
        month_index(r.0) == m,
        r.1 == days_in_month(year as int, m as int),
{
    match m {
        0 => (Month::January, 31),
        1 => (Month::February, if is_leap_year(year) { 29 } else { 28 }),
        2 => (Month::March, 31),
        3 => (Month::April, 30),
        4 => (Month::May, 31),
        5 => (Month::June, 30),
        6 => (Month::July, 31),
        7 => (Month::August, 31),
        8 => (Month::September, 30),
        9 => (Month::October, 31),
        10 => (Month::November, 30),
        _ => (Month::December, 31),
    }
}

impl DtCache {
    /// Converts `secs` seconds after the epoch into calendar fields.
    pub fn from_secs(secs: usize) -> (r: DtCache)
        ensures
            r.wf(),
            r.seconds() == secs,
            r == DtCache::calendar(secs as nat),
    {
        // whole years
        let mut x: usize = secs;
        let mut year: usize = 1970;
        let mut sec_per_year: usize = if is_leap_year(year) { 366 * 86400 } else { 365 * 86400 };
        proof {
            lemma_days_before_year_grows(1970, 1970);
        }
        while x >= sec_per_year
            invariant
                year >= 1970,
                x + days_before_year(year as int) * 86400 == secs,
                year - 1970 <= days_before_year(year as int),
                sec_per_year == days_in_year(year as int) * 86400,
            decreases x,
        {
            x -= sec_per_year;
            proof {
                lemma_days_before_year_grows(1970, year as int + 1);
            }
            year += 1;
            sec_per_year = if is_leap_year(year) { 366 * 86400 } else { 365 * 86400 };
        }
        // whole months
        proof {
            lemma_year_has_twelve_months(year as int);
        }
        let mut m: usize = 0;
        let mut entry: (Month, usize) = month_table(year, 0);
        while x >= entry.1 * 86400
            invariant
                m < 12,
                year >= 1970,
                month_index(entry.0) == m,
                entry.1 == days_in_month(year as int, m as int),
                x + (days_before_year(year as int) + days_before_month(year as int, m as int)) * 86400
                    == secs,
                x + days_before_month(year as int, m as int) * 86400 < days_in_year(year as int) * 86400,
                days_before_month(year as int, 12) == days_in_year(year as int),
            decreases 12 - m,
        {
            x -= entry.1 * 86400;
            m += 1;
            entry = month_table(year, m);
        }
        // days, hours, minutes and seconds
        let day: usize = x / 24 / 60 / 60;
        proof {
            vstd::arithmetic::div_mod::lemma_div_denominator(x as int, 24, 60);
            vstd::arithmetic::div_mod::lemma_div_denominator(x as int, 1440, 60);
            vstd::arithmetic::div_mod::lemma_fundamental_div_mod(x as int, 86400);
        }
        x -= day * 24 * 60 * 60;
        let hour: usize = x / 60 / 60;
        proof {
            vstd::arithmetic::div_mod::lemma_div_denominator(x as int, 60, 60);
            vstd::arithmetic::div_mod::lemma_fundamental_div_mod(x as int, 3600);
        }
        x -= hour * 60 * 60;
        let minute: usize = x / 60;
        proof {
            vstd::arithmetic::div_mod::lemma_fundamental_div_mod(x as int, 60);
        }
        x -= minute * 60;
        let date_day = get_day(secs);
        let r = DtCache {
            year,
            month: entry.0,
            day: date_day,
            date: day + 1,
            hour,
            minute,
            second: x,
        };
        proof {
            lemma_split_seconds(r.day_number(), r.clock());
            assert(r.wf() && r.seconds() == secs as nat);
            lemma_calendar_unique(r, DtCache::calendar(secs as nat));
        }
        r
    }
}

proof fn lemma_days_before_year_grows(a: int, b: int)
    requires
        1970 <= a <= b,
    ensures
        days_before_year(a) <= days_before_year(b),
        a < b ==> days_before_year(a) + days_in_year(a) <= days_before_year(b),
        b - a <= days_before_year(b) - days_before_year(a),
    decreases b - a,
{
    if a < b {
        lemma_days_before_year_grows(a, b - 1);
    }
}

proof fn lemma_days_before_month_grows(y: int, a: int, b: int)
    requires
        0 <= a <= b,
    ensures
        days_before_month(y, a) <= days_before_month(y, b),
        a < b ==> days_before_month(y, a) + days_in_month(y, a) <= days_before_month(y, b),
    decreases b - a,
{
    if a < b {
        lemma_days_before_month_grows(y, a, b - 1);
    }
}

proof fn lemma_year_has_twelve_months(y: int)
    ensures
        days_before_month(y, 12) == days_in_year(y),
{
    reveal_with_fuel(days_before_month, 13);
}

/// Within a year, the month and the day are fixed by the day's offset.
proof fn lemma_offset_in_year(y: int, m: int, d: int)
    requires
        0 <= m < 12,
        1 <= d <= days_in_month(y, m),
    ensures
        0 <= days_before_month(y, m) + d - 1 < days_in_year(y),
{
    lemma_days_before_month_grows(y, 0, m);
    lemma_days_before_month_grows(y, m, 12);
    lemma_year_has_twelve_months(y);
}

/// A day and a time of day are fixed by the seconds they stand for.
proof fn lemma_split_seconds(n: int, c: int)
    requires
        0 <= c < 86400,
        0 <= n,
    ensures
        (n * 86400 + c) / 86400 == n,
        (n * 86400 + c) % 86400 == c,
{
    vstd::arithmetic::div_mod::lemma_fundamental_div_mod_converse(n * 86400 + c, 86400, n, c);
}

/// Two well-formed sets of calendar fields that stand for the same instant
/// are the same.
pub proof fn lemma_calendar_unique(a: DtCache, b: DtCache)
    requires
        a.wf(),
        b.wf(),
        a.seconds() == b.seconds(),
    ensures
        a == b,
{
    let (ya, yb) = (a.year as int, b.year as int);
    let (ma, mb) = (month_index(a.month), month_index(b.month));
    lemma_offset_in_year(ya, ma, a.date as int);
    lemma_offset_in_year(yb, mb, b.date as int);
    lemma_days_before_year_grows(1970, ya);
    lemma_days_before_year_grows(1970, yb);
    lemma_split_seconds(a.day_number(), a.clock());
    lemma_split_seconds(b.day_number(), b.clock());
    assert(a.day_number() == b.day_number());
    assert(a.clock() == b.clock());
    vstd::arithmetic::div_mod::lemma_fundamental_div_mod_converse(
        a.clock(), 3600, a.hour as int, a.minute * 60 + a.second);
    vstd::arithmetic::div_mod::lemma_fundamental_div_mod_converse(
        b.clock(), 3600, b.hour as int, b.minute * 60 + b.second);
    vstd::arithmetic::div_mod::lemma_fundamental_div_mod_converse(
        a.minute * 60 + a.second, 60, a.minute as int, a.second as int);
    vstd::arithmetic::div_mod::lemma_fundamental_div_mod_converse(
        b.minute * 60 + b.second, 60, b.minute as int, b.second as int);
    if ya < yb {
        lemma_days_before_year_grows(ya, yb);
    } else if yb < ya {
        lemma_days_before_year_grows(yb, ya);
    }
    assert(ya == yb);
    if ma < mb {
        lemma_days_before_month_grows(ya, ma, mb);
    } else if mb < ma {
        lemma_days_before_month_grows(ya, mb, ma);
    }
    assert(ma == mb);
    assert(a.month == b.month);
}

/// Fields, turned into seconds and back, come out as they went in: a
/// well-formed record is the calendar of the instant it stands for.
pub proof fn lemma_round_trip(f: DtCache)
    requires
        f.wf(),
    ensures
        f.seconds() >= 0,
        DtCache::calendar(f.seconds() as nat) == f,
{
    lemma_days_before_year_grows(1970, f.year as int);
    lemma_offset_in_year(f.year as int, month_index(f.month), f.date as int);
    let c = DtCache::calendar(f.seconds() as nat);
    assert(f.wf() && f.seconds() == f.seconds() as nat);
    lemma_calendar_unique(f, c);
}

/// The weekday repeats every seven days: the instants `s` and
/// `s + 7 * 86400` fall on the same weekday.
pub proof fn lemma_weekly(s: nat)
    ensures
        weekday_of(s as int / 86400) == weekday_of((s + 7 * 86400) as int / 86400),
{
    let d: int = s as int / 86400;
    vstd::arithmetic::div_mod::lemma_fundamental_div_mod(s as int, 86400);
    vstd::arithmetic::div_mod::lemma_fundamental_div_mod_converse(
        s as int + 7 * 86400, 86400, d + 7, s as int % 86400);
    vstd::arithmetic::div_mod::lemma_mod_add_multiples_vanish(d + 4, 7);
}

/// The last second of year `y` is 31 December, 23:59:59; one second later
/// it is 1 January of year `y + 1`, 0:00:00.
pub proof fn lemma_new_year(y: int)
    requires
        1970 <= y < usize::MAX,
    ensures
        days_before_year(y + 1) * 86400 >= 1,
        DtCache::calendar((days_before_year(y + 1) * 86400 - 1) as nat) == (DtCache {
            year: y as usize,
            month: Month::December,
            day: weekday_of(days_before_year(y + 1) - 1),
            date: 31,
            hour: 23,
            minute: 59,
            second: 59,
        }),
        DtCache::calendar((days_before_year(y + 1) * 86400) as nat) == (DtCache {
            year: (y + 1) as usize,
            month: Month::January,
            day: weekday_of(days_before_year(y + 1)),
            date: 1,
            hour: 0,
            minute: 0,
            second: 0,
        }),
{
    reveal_with_fuel(days_before_month, 13);
    lemma_days_before_year_grows(1970, y);
    let last = DtCache {
        year: y as usize,
        month: Month::December,
        day: weekday_of(days_before_year(y + 1) - 1),
        date: 31,
        hour: 23,
        minute: 59,
        second: 59,
    };
    let first = DtCache {
        year: (y + 1) as usize,
        month: Month::January,
        day: weekday_of(days_before_year(y + 1)),
        date: 1,
        hour: 0,
        minute: 0,
        second: 0,
    };
    assert(last.day_number() == days_before_year(y + 1) - 1);
    assert(first.day_number() == days_before_year(y + 1));
    lemma_round_trip(last);
    lemma_round_trip(first);
}

} // verus!
