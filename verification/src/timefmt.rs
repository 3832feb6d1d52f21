//! Timestamps and display formatting of times: the request timestamp the
//! signer embeds, and the human-readable forms the interface shows.

use vstd::prelude::*;
use chrono::{Datelike, Timelike};
use crate::textutil::chars_to_string;

verus! {

/// A civil UTC timestamp, field by field.
pub struct UtcTimestamp {
    pub year: u64,
    pub month: u64,
    pub day: u64,
    pub hour: u64,
    pub minute: u64,
    pub second: u64,
}

/// Fields in their civil ranges, the year bounded so that four digits render
/// it.
pub open spec fn timestamp_wf(ts: UtcTimestamp) -> bool {
    &&& 1970 <= ts.year <= 9999
    &&& 1 <= ts.month <= 12
    &&& 1 <= ts.day <= 31
    &&& ts.hour < 24
    &&& ts.minute < 60
    &&& ts.second < 60
}

/// The epoch seconds representable as a civil timestamp up to the year 9999.
pub const MAX_CIVIL_EPOCH: u64 = 253402300799;

/// Relies on chrono's `DateTime::from_timestamp` and its `Datelike` and
/// `Timelike` accessors: every epoch second up to the year 9999 converts,
/// and the fields come back in their civil ranges.
#[verifier::external_body]
pub fn civil_from_epoch(epoch_secs: u64) -> (r: UtcTimestamp)
    requires
        epoch_secs <= MAX_CIVIL_EPOCH,
    ensures
        timestamp_wf(r),
{
    let dt = chrono::DateTime::<chrono::Utc>::from_timestamp(epoch_secs as i64, 0)
        .expect("every epoch second up to the year 9999 is representable");
    UtcTimestamp {
        year: dt.year() as u64,
        month: dt.month() as u64,
        day: dt.day() as u64,
        hour: dt.hour() as u64,
        minute: dt.minute() as u64,
        second: dt.second() as u64,
    }
}

/// The ASCII digit byte for a value below ten.
pub open spec fn spec_digit(n: u64) -> u8 {
    (0x30 + n % 10) as u8
}

/// A number rendered as exactly two digits.
pub open spec fn spec_pad2(n: u64) -> Seq<u8> {
    seq![spec_digit(n / 10), spec_digit(n)]
}

/// A number rendered as exactly four digits.
pub open spec fn spec_pad4(n: u64) -> Seq<u8> {
    seq![spec_digit(n / 1000), spec_digit(n / 100), spec_digit(n / 10), spec_digit(n)]
}

/// The signer's timestamp form `YYYYMMDDTHHMMSSZ`; its first eight bytes are
/// the scope date.
pub open spec fn spec_amz_date(ts: UtcTimestamp) -> Seq<u8> {
    spec_pad4(ts.year) + spec_pad2(ts.month) + spec_pad2(ts.day) + seq![0x54u8] + spec_pad2(
        ts.hour,
    ) + spec_pad2(ts.minute) + spec_pad2(ts.second) + seq![0x5au8]
}

fn push_pad2(out: &mut Vec<u8>, n: u64)
    ensures
        final(out)@ == old(out)@ + spec_pad2(n),
{
    out.push(0x30 + ((n / 10) % 10) as u8);
    out.push(0x30 + (n % 10) as u8);
    proof {
        assert(out@ =~= old(out)@ + spec_pad2(n));
    }
}

fn push_pad4(out: &mut Vec<u8>, n: u64)
    ensures
        final(out)@ == old(out)@ + spec_pad4(n),
{
    out.push(0x30 + ((n / 1000) % 10) as u8);
    out.push(0x30 + ((n / 100) % 10) as u8);
    out.push(0x30 + ((n / 10) % 10) as u8);
    out.push(0x30 + (n % 10) as u8);
    proof {
        assert(out@ =~= old(out)@ + spec_pad4(n));
    }
}

/// Renders the signer's timestamp, sixteen bytes ending in `Z`.
pub fn amz_date_bytes(ts: &UtcTimestamp) -> (r: Vec<u8>)
    ensures
        r@ == spec_amz_date(*ts),
        r@.len() == 16,
{
    let mut r: Vec<u8> = Vec::new();
    push_pad4(&mut r, ts.year);
    push_pad2(&mut r, ts.month);
    push_pad2(&mut r, ts.day);
    r.push(0x54);
    push_pad2(&mut r, ts.hour);
    push_pad2(&mut r, ts.minute);
    push_pad2(&mut r, ts.second);
    r.push(0x5a);
    proof {
        assert(r@ =~= spec_amz_date(*ts));
    }
    r
}

/// The digit character for a value below ten.
pub open spec fn spec_digit_char(n: int) -> char {
    if n % 10 == 0 {
        '0'
    } else if n % 10 == 1 {
        '1'
    } else if n % 10 == 2 {
        '2'
    } else if n % 10 == 3 {
        '3'
    } else if n % 10 == 4 {
        '4'
    } else if n % 10 == 5 {
        '5'
    } else if n % 10 == 6 {
        '6'
    } else if n % 10 == 7 {
        '7'
    } else if n % 10 == 8 {
        '8'
    } else {
        '9'
    }
}

fn digit_char(n: u64) -> (c: char)
    ensures
        c == spec_digit_char(n as int),
{
    let d = n % 10;
    if d == 0 {
        '0'
    } else if d == 1 {
        '1'
    } else if d == 2 {
        '2'
    } else if d == 3 {
        '3'
    } else if d == 4 {
        '4'
    } else if d == 5 {
        '5'
    } else if d == 6 {
        '6'
    } else if d == 7 {
        '7'
    } else if d == 8 {
        '8'
    } else {
        '9'
    }
}

/// A number in decimal, most significant digit first.
pub open spec fn spec_decimal(n: int) -> Seq<char>
    decreases n,
{
    if n < 10 {
        seq![spec_digit_char(n)]
    } else {
        spec_decimal(n / 10).push(spec_digit_char(n))
    }
}

/// A number rendered with at least `width` digits, zero-padded like the
/// formatter's `{:0width$}`.
pub open spec fn spec_decimal_pad(n: int, width: int) -> Seq<char>
    decreases width,
{
    if spec_decimal(n).len() >= width {
        spec_decimal(n)
    } else {
        seq!['0'] + spec_decimal_pad(n, width - 1)
    }
}

/// Renders a number in decimal.
pub fn u64_to_decimal(n: u64) -> (r: Vec<char>)
    ensures
        r@ == spec_decimal(n as int),
    decreases n,
{
    if n < 10 {
        let mut r: Vec<char> = Vec::new();
        r.push(digit_char(n));
        proof {
            assert(r@ =~= spec_decimal(n as int));
        }
        r
    } else {
        let mut r = u64_to_decimal(n / 10);
        r.push(digit_char(n));
        r
    }
}

/// Renders a number zero-padded to at least `width` digits.
pub fn u64_to_decimal_pad(n: u64, width: usize) -> (r: Vec<char>)
    ensures
        r@ == spec_decimal_pad(n as int, width as int),
    decreases width,
{
    let digits = u64_to_decimal(n);
    if digits.len() >= width {
        digits
    } else {
        let mut r = u64_to_decimal_pad(n, width - 1);
        r.insert(0, '0');
        proof {
            assert(r@ =~= seq!['0'] + spec_decimal_pad(n as int, width as int - 1));
        }
        r
    }
}

/// The display form of an epoch-millisecond stamp: date and time fields
/// derived with the interface's own flat-year arithmetic (365-day years,
/// 30-day months), each zero-padded.
pub open spec fn spec_format_epoch_millis(millis: i64) -> Seq<char> {
    let ms: int = if millis >= 0 {
        millis as int
    } else {
        millis + 0x1_0000_0000_0000_0000
    };
    let secs = ms / 1000;
    let days = secs / 86400;
    let years = 1970 + days / 365;
    let remaining_days = days % 365;
    let months = remaining_days / 30;
    let day = remaining_days % 30 + 1;
    let hours = (secs % 86400) / 3600;
    let minutes = (secs % 3600) / 60;
    let seconds = secs % 60;
    spec_decimal_pad(years, 4) + seq!['-'] + spec_decimal_pad(months + 1, 2) + seq!['-']
        + spec_decimal_pad(day, 2) + seq![' '] + spec_decimal_pad(hours, 2) + seq![':']
        + spec_decimal_pad(minutes, 2) + seq![':'] + spec_decimal_pad(seconds, 2)
}

/// Formats an epoch-millisecond stamp for display, with the interface's own
/// flat-year arithmetic.
pub fn format_epoch_millis(millis: i64) -> (r: String)
    ensures
        r@ == spec_format_epoch_millis(millis),
{
    let ms: u64 = if millis >= 0 {
        millis as u64
    } else {
        ((millis as i128) + 0x1_0000_0000_0000_0000_i128) as u64
    };
    let secs = ms / 1000;
    let days = secs / 86400;
    let years = 1970 + days / 365;
    let remaining_days = days % 365;
    let months = remaining_days / 30;
    let day = remaining_days % 30 + 1;
    let hours = (secs % 86400) / 3600;
    let minutes = (secs % 3600) / 60;
    let seconds = secs % 60;

    let mut chars = u64_to_decimal_pad(years, 4);
    chars.push('-');
    let mut part = u64_to_decimal_pad(months + 1, 2);
    chars.append(&mut part);
    chars.push('-');
    let mut part = u64_to_decimal_pad(day, 2);
    chars.append(&mut part);
    chars.push(' ');
    let mut part = u64_to_decimal_pad(hours, 2);
    chars.append(&mut part);
    chars.push(':');
    let mut part = u64_to_decimal_pad(minutes, 2);
    chars.append(&mut part);
    chars.push(':');
    let mut part = u64_to_decimal_pad(seconds, 2);
    chars.append(&mut part);
    proof {
        assert(chars@ =~= spec_format_epoch_millis(millis));
    }
    chars_to_string(&chars)
}

/// Formats a log event's epoch-millisecond stamp for display.
pub fn format_log_timestamp(millis: i64) -> (r: String)
    ensures
        r@ == spec_format_epoch_millis(millis),
{
    format_epoch_millis(millis)
}

} // verus!
