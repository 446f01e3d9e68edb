//! The text form of calendar fields: `Mon Sep 9, 1996  15:23:44 (UTC)`.

use crate::calendar::{Day, DtCache, Month};
use vstd::prelude::*;
use vstd::string::StringExecFns;

verus! {

pub open spec fn day_abbrev(d: Day) -> Seq<char> {
    match d {
        Day::Sunday => "Sun"@,
        Day::Monday => "Mon"@,
        Day::Tuesday => "Tue"@,
        Day::Wednesday => "Wed"@,
        Day::Thursday => "Thu"@,
        Day::Friday => "Fri"@,
        Day::Saturday => "Sat"@,
    }
}

pub open spec fn month_abbrev(m: Month) -> Seq<char> {
    match m {
        Month::January => "Jan"@,
        Month::February => "Feb"@,
        Month::March => "Mar"@,
        Month::April => "Apr"@,
        Month::May => "May"@,
        Month::June => "Jun"@,
        Month::July => "Jul"@,
        Month::August => "Aug"@,
        Month::September => "Sep"@,
        Month::October => "Oct"@,
        Month::November => "Nov"@,
        Month::December => "Dec"@,
    }
}

/// The decimal digit `d`, for `d` below 10.
pub open spec fn digit(d: nat) -> char {
    if d == 0 {
        '0'
    } else if d == 1 {
        '1'
    } else if d == 2 {
        '2'
    } else if d == 3 {
        '3'
    } else if d == 4 {
        '4'
    } else if d == 5 {
        '5'
    } else if d == 6 {
        '6'
    } else if d == 7 {
        '7'
    } else if d == 8 {
        '8'
    } else {
        '9'
    }
}

/// `n` in decimal, without leading zeros.
pub open spec fn decimal(n: nat) -> Seq<char>
    decreases n,
{
    if n < 10 {
        seq![digit(n)]
    } else {
        decimal(n / 10) + seq![digit(n % 10)]
    }
}

/// `n` in decimal, padded with a zero to at least two digits.
pub open spec fn two_digits(n: nat) -> Seq<char> {
    if n < 10 {
        seq!['0'] + decimal(n)
    } else {
        decimal(n)
    }
}

/// The time stamp of calendar fields.
pub open spec fn time_stamp(c: DtCache) -> Seq<char> {
    day_abbrev(c.day) + " "@ + month_abbrev(c.month) + " "@ + decimal(c.date as nat) + ", "@
        + decimal(c.year as nat) + "  "@ + decimal(c.hour as nat) + ":"@ + two_digits(
        c.minute as nat,
    ) + ":"@ + two_digits(c.second as nat) + " (UTC)"@
}

fn day_name(d: Day) -> (r: &'static str)
    ensures
        r@ == day_abbrev(d),
{
    match d {
        Day::Sunday => "Sun",
        Day::Monday => "Mon",
        Day::Tuesday => "Tue",
        Day::Wednesday => "Wed",
        Day::Thursday => "Thu",
        Day::Friday => "Fri",
        Day::Saturday => "Sat",
    }
}

fn month_name(m: Month) -> (r: &'static str)
    ensures
        r@ == month_abbrev(m),
{
    match m {
        Month::January => "Jan",
        Month::February => "Feb",
        Month::March => "Mar",
        Month::April => "Apr",
        Month::May => "May",
        Month::June => "Jun",
        Month::July => "Jul",
        Month::August => "Aug",
        Month::September => "Sep",
        Month::October => "Oct",
        Month::November => "Nov",
        Month::December => "Dec",
    }
}

fn digit_str(d: usize) -> (r: &'static str)
    requires
        d < 10,
    ensures
        r@ == seq![digit(d as nat)],
{
    match d {
        0 => { proof { reveal_strlit("0"); } "0" },
        1 => { proof { reveal_strlit("1"); } "1" },
        2 => { proof { reveal_strlit("2"); } "2" },
        3 => { proof { reveal_strlit("3"); } "3" },
        4 => { proof { reveal_strlit("4"); } "4" },
        5 => { proof { reveal_strlit("5"); } "5" },
        6 => { proof { reveal_strlit("6"); } "6" },
        7 => { proof { reveal_strlit("7"); } "7" },
        8 => { proof { reveal_strlit("8"); } "8" },
        _ => { proof { reveal_strlit("9"); } "9" },
    }
}

/// Appends `n` in decimal to `s`.
pub fn push_decimal(s: &mut String, n: usize)
    ensures
        final(s)@ == old(s)@ + decimal(n as nat),
    decreases n,
{
    if n >= 10 {
        push_decimal(s, n / 10);
    }
    s.append(digit_str(n % 10));
}

/// Appends `n` in decimal, padded to two digits, to `s`.
pub fn push_two_digits(s: &mut String, n: usize)
    ensures
        final(s)@ == old(s)@ + two_digits(n as nat),
{
    if n < 10 {
        proof {
            reveal_strlit("0");
        }
        s.append("0");
    }
    push_decimal(s, n);
}

/// Renders calendar fields as `<Day> <Month> <date>, <year>  <h>:<mm>:<ss> (UTC)`.
pub fn format_fields(c: &DtCache) -> (r: String)
    ensures
        r@ == time_stamp(*c),
{
    let mut s = String::new();
    s.append(day_name(c.day));
    s.append(" ");
    s.append(month_name(c.month));
    s.append(" ");
    push_decimal(&mut s, c.date);
    s.append(", ");
    push_decimal(&mut s, c.year);
    s.append("  ");
    push_decimal(&mut s, c.hour);
    s.append(":");
    push_two_digits(&mut s, c.minute);
    s.append(":");
    push_two_digits(&mut s, c.second);
    s.append(" (UTC)");
    s
}

} // verus!
