//! The local clock.

use vstd::prelude::*;
use chrono::{Datelike, Timelike};
use crate::archive::{entry_time, time_fits, EntryTime};

verus! {

/// Whether `format` is one of the two formats in which the library writes
/// the time: the day, and the day with the time of day.
pub open spec fn known_format(format: Seq<char>) -> bool {
    format == "%Y-%m-%d"@ || format == "%Y-%m-%dT%H:%M:%SZ"@
}

/// Whether `c` is one of the digits from `0` to `9`.
pub open spec fn is_digit(c: char) -> bool {
    0x30 <= c as u32 <= 0x39
}

/// Whether the two characters of `s` from `at` on are digits.
pub open spec fn two_digits(s: Seq<char>, at: int) -> bool {
    is_digit(s[at]) && is_digit(s[at + 1])
}

/// Whether `s` is a year as it is written out: four digits, or a sign and
/// four digits or more for a year before 0 or after 9999.
pub open spec fn is_year(s: Seq<char>) -> bool {
    if s.len() > 0 && (s[0] == '+' || s[0] == '-') {
        s.len() >= 5 && forall|i: int| 1 <= i < s.len() ==> is_digit(#[trigger] s[i])
    } else {
        s.len() == 4 && forall|i: int| 0 <= i < s.len() ==> is_digit(#[trigger] s[i])
    }
}

/// Whether `s` is a day as it is written out: the year, the month in two
/// digits and the day in two digits, with `-` between them.
pub open spec fn is_day(s: Seq<char>) -> bool {
    let n = s.len() as int;
    &&& n >= 10
    &&& is_year(s.take(n - 6))
    &&& s[n - 6] == '-'
    &&& two_digits(s, n - 5)
    &&& s[n - 3] == '-'
    &&& two_digits(s, n - 2)
}

/// Whether `s` is a time as it is written out: the day, `T`, the hour, the
/// minute and the second in two digits each with `:` between them, and `Z`.
pub open spec fn is_stamp(s: Seq<char>) -> bool {
    let n = s.len() as int;
    &&& n >= 20
    &&& is_day(s.take(n - 10))
    &&& s[n - 10] == 'T'
    &&& two_digits(s, n - 9)
    &&& s[n - 7] == ':'
    &&& two_digits(s, n - 6)
    &&& s[n - 4] == ':'
    &&& two_digits(s, n - 3)
    &&& s[n - 1] == 'Z'
}

/// Whether `out` has the shape that the format `format` gives to every
/// time.
pub open spec fn shaped(format: Seq<char>, out: Seq<char>) -> bool {
    &&& format == "%Y-%m-%d"@ ==> is_day(out)
    &&& format == "%Y-%m-%dT%H:%M:%SZ"@ ==> is_stamp(out)
}

/// `chrono::Local::now`, as the number of milliseconds since the first day
/// of 1970 that `timestamp_millis` gives. Nothing is known of the result.
/// `Local::now` panics where the clock of the system stands before 1970,
/// and where the local offset cannot be found.
#[verifier::external_body]
fn local_millis() -> i64 {
    chrono::Local::now().timestamp_millis()
}

/// `chrono::Local::now`, written out by `format`, which panics on a format
/// that it cannot read: only the two formats of the library are let in.
/// Which time comes out is not known, but its shape is: `%Y` gives four
/// digits, or a sign and four digits or more; `%m`, `%d`, `%H`, `%M` and
/// `%S` give two digits each; every other character of the two formats
/// stands for itself. `Local::now` panics where the clock of the system
/// stands before 1970, and where the local offset cannot be found.
#[verifier::external_body]
fn local_time(format: &str) -> (out: String)
    requires
        known_format(format@),
    ensures
        shaped(format@, out@),
{
    chrono::Local::now().format(format).to_string()
}

/// `chrono::Utc::now`, as the year, month, day, hour, minute and second
/// that `Datelike` and `Timelike` read of it. Nothing is known of the
/// result. `Utc::now` panics where the clock of the system stands before
/// 1970.
#[verifier::external_body]
fn utc_fields() -> (i32, u32, u32, u32, u32, u32) {
    let now = chrono::Utc::now();
    (now.year(), now.month(), now.day(), now.hour(), now.minute(), now.second())
}

/// The milliseconds that have passed since the first day of 1970.
pub fn now_millis() -> i64 {
    local_millis()
}

/// The day of today in local time, as year, month and day.
pub fn today() -> (day: String)
    ensures
        is_day(day@),
{
    local_time("%Y-%m-%d")
}

/// The present local time, as day and time of day.
pub fn now_stamp() -> (stamp: String)
    ensures
        is_stamp(stamp@),
{
    local_time("%Y-%m-%dT%H:%M:%SZ")
}

/// The time that the entries of an archive made now carry: the present
/// time by the universal clock where an archive can hold it, else the first
/// moment that it can hold.
pub fn now_entry_time() -> (at: EntryTime)
    ensures
        time_fits(at),
{
    let (year, month, day, hour, minute, second) = utc_fields();
    entry_time(year, month, day, hour, minute, second)
}

} // verus!
