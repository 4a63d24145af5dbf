//! Renders a tick count of the Windows epoch as a display text.
//!
//! The breakdown into a date is a deliberate approximation: every year has
//! 365 days and every month 30, so a month numbered 13 can occur and the
//! date drifts from the Gregorian calendar. The time of day is exact.

use vstd::prelude::*;
use crate::text::{opt_string_view, string_of};

verus! {

/// The tick count of 1970-01-01 00:00:00: ticks are intervals of 100 ns
/// counted from 1601-01-01.
pub const FILETIME_TO_UNIX_EPOCH: u64 = 116444736000000000;

/// Ticks in a second.
pub const TICKS_PER_SECOND: u64 = 10000000;

/// Seconds in a day.
pub const SECONDS_PER_DAY: u64 = 86400;

/// The decimal digit for a number below ten.
pub open spec fn digit(n: nat) -> char {
    (0x30 + n) as char
}

/// The decimal numeral of `n`, without leading zeros.
pub open spec fn decimal(n: nat) -> Seq<char>
    decreases n,
{
    if n < 10 {
        seq![digit(n)]
    } else {
        decimal(n / 10).push(digit(n % 10))
    }
}

/// The decimal numeral of `n`, with a leading zero where it has one digit.
pub open spec fn two_digits(n: nat) -> Seq<char> {
    if n < 10 {
        seq!['0', digit(n)]
    } else {
        decimal(n)
    }
}

/// Whole seconds from 1970-01-01 to the tick count.
pub open spec fn unix_seconds(filetime: u64) -> nat
    recommends
        filetime >= FILETIME_TO_UNIX_EPOCH,
{
    ((filetime - FILETIME_TO_UNIX_EPOCH) / (TICKS_PER_SECOND as int)) as nat
}

/// The display text for a number of seconds since 1970-01-01:
/// `year-month-day hours:minutes:seconds (UTC)`.
pub open spec fn seconds_text(seconds: nat) -> Seq<char> {
    let days = seconds / (SECONDS_PER_DAY as nat);
    let rest = seconds % (SECONDS_PER_DAY as nat);
    let day_of_year = days % 365;
    decimal(1970 + days / 365) + seq!['-'] + two_digits(day_of_year / 30 + 1) + seq!['-']
        + two_digits(day_of_year % 30 + 1) + seq![' '] + two_digits(rest / 3600) + seq![':']
        + two_digits((rest % 3600) / 60) + seq![':'] + two_digits(rest % 60) + seq![
        ' ',
        '(',
        'U',
        'T',
        'C',
        ')',
    ]
}

/// The display text of a tick count, or nothing for a count before
/// 1970-01-01, zero included.
pub open spec fn filetime_text(filetime: u64) -> Option<Seq<char>> {
    if filetime < FILETIME_TO_UNIX_EPOCH {
        None
    } else {
        Some(seconds_text(unix_seconds(filetime)))
    }
}

/// The tick count in the first eight bytes of a property value, low byte
/// first.
pub open spec fn filetime_of(bytes: Seq<u8>) -> u64
    recommends
        bytes.len() >= 8,
{
    (bytes[0] + 0x100 * bytes[1] + 0x10000 * bytes[2] + 0x1000000 * bytes[3] + 0x100000000
        * bytes[4] + 0x10000000000 * bytes[5] + 0x1000000000000 * bytes[6] + 0x100000000000000
        * bytes[7]) as u64
}

/// Reads the tick count in the first eight bytes of a property value.
pub fn read_filetime(data: &[u8]) -> (r: u64)
    requires
        data@.len() >= 8,
    ensures
        r == filetime_of(data@),
{
    (data[0] as u64) + 0x100 * (data[1] as u64) + 0x10000 * (data[2] as u64) + 0x1000000 * (
    data[3] as u64) + 0x100000000 * (data[4] as u64) + 0x10000000000 * (data[5] as u64)
        + 0x1000000000000 * (data[6] as u64) + 0x100000000000000 * (data[7] as u64)
}

/// The decimal digit for a number below ten.
fn digit_char(d: u64) -> (c: char)
    requires
        d < 10,
    ensures
        c == digit(d as nat),
{
    if d == 0 {
        '0'
    } else if d == 1 {
        '1'
    } else if d == 2 {
        '2'
    } else if d == 3 {
        '3'
    } else if d == 4 {
        '4'
    } else if d == 5 {
        '5'
    } else if d == 6 {
        '6'
    } else if d == 7 {
        '7'
    } else if d == 8 {
        '8'
    } else {
        '9'
    }
}

/// Appends the decimal numeral of `n`.
pub fn push_decimal(out: &mut Vec<char>, n: u64)
    ensures
        final(out)@ == old(out)@ + decimal(n as nat),
    decreases n,
{
    if n >= 10 {
        push_decimal(out, n / 10);
    }
    out.push(digit_char(n % 10));
    assert(out@ =~= old(out)@ + decimal(n as nat));
}

/// Appends the decimal numeral of `n`, padded with a zero to two digits.
pub fn push_two_digits(out: &mut Vec<char>, n: u64)
    ensures
        final(out)@ == old(out)@ + two_digits(n as nat),
{
    if n < 10 {
        out.push('0');
    }
    push_decimal(out, n);
    assert(out@ =~= old(out)@ + two_digits(n as nat));
}

/// Renders a tick count as `year-month-day hours:minutes:seconds (UTC)`, the
/// date by the approximation that this module describes. A count before
/// 1970-01-01, zero included, has no rendering.
pub fn filetime_to_string(filetime: u64) -> (r: Option<String>)
    ensures
        opt_string_view(r) == filetime_text(filetime),
        filetime == 0 ==> r is None,
        filetime < FILETIME_TO_UNIX_EPOCH ==> r is None,
{
    if filetime == 0 {
        return None;
    }
    if filetime < FILETIME_TO_UNIX_EPOCH {
        return None;
    }
    let unix_time: u64 = (filetime - FILETIME_TO_UNIX_EPOCH) / TICKS_PER_SECOND;

    let total_days: u64 = unix_time / SECONDS_PER_DAY;
    let remaining_seconds: u64 = unix_time % SECONDS_PER_DAY;
    let hours: u64 = remaining_seconds / 3600;
    let minutes: u64 = (remaining_seconds % 3600) / 60;
    let seconds: u64 = remaining_seconds % 60;

    let year: u64 = 1970 + total_days / 365;
    let day_of_year: u64 = total_days % 365;
    let month: u64 = (day_of_year / 30) + 1;
    let day: u64 = (day_of_year % 30) + 1;

    let mut out: Vec<char> = Vec::new();
    push_decimal(&mut out, year);
    out.push('-');
    push_two_digits(&mut out, month);
    out.push('-');
    push_two_digits(&mut out, day);
    out.push(' ');
    push_two_digits(&mut out, hours);
    out.push(':');
    push_two_digits(&mut out, minutes);
    out.push(':');
    push_two_digits(&mut out, seconds);
    out.push(' ');
    out.push('(');
    out.push('U');
    out.push('T');
    out.push('C');
    out.push(')');
    assert(out@ =~= seconds_text(unix_seconds(filetime)));
    Some(string_of(&out))
}

} // verus!
