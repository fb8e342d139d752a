//! vCenter timestamps, as RVTools shows them.

use vstd::prelude::*;
use chrono::{Datelike, Timelike};
use crate::text::{decimal, decimal_padded, zero_pad};

verus! {

/// What `chrono::DateTime::parse_from_rfc3339` reads in `raw`, taken in UTC,
/// as year, month, day, hour, minute and second; `None` when `raw` is not an
/// RFC 3339 timestamp.
pub uninterp spec fn rfc3339_utc(raw: Seq<char>) -> Option<(i32, u32, u32, u32, u32, u32)>;

/// `chrono::DateTime::parse_from_rfc3339`, then `naive_utc`, read back as
/// calendar fields. The contract names the result and states the field
/// ranges chrono documents; the calendar arithmetic is chrono's.
#[verifier::external_body]
fn rfc3339_fields(raw: &str) -> (r: Option<(i32, u32, u32, u32, u32, u32)>)
    ensures
        r == rfc3339_utc(raw@),
        r matches Some(f) ==> 1 <= f.1 <= 12 && 1 <= f.2 <= 31 && f.3 <= 23 && f.4 <= 59 && f.5 <= 59,
{
    chrono::DateTime::parse_from_rfc3339(raw).ok().map(|dt| {
        let t = dt.naive_utc();
        (t.year(), t.month(), t.day(), t.hour(), t.minute(), t.second())
    })
}

/// Whether `raw` is an RFC 3339 timestamp.
pub fn is_timestamp(raw: &str) -> (r: bool)
    ensures
        r == rfc3339_utc(raw@) is Some,
{
    rfc3339_fields(raw).is_some()
}

/// chrono's `%Y`: four digits, zero-padded, with a sign outside 0..=9999.
pub open spec fn year_text(y: int) -> Seq<char> {
    if 0 <= y <= 9999 {
        zero_pad(decimal(y as nat), 4)
    } else if y < 0 {
        seq!['-'] + zero_pad(decimal((-y) as nat), 4)
    } else {
        seq!['+'] + zero_pad(decimal(y as nat), 4)
    }
}

pub open spec fn two(v: u32) -> Seq<char> {
    zero_pad(decimal(v as nat), 2)
}

/// `yyyy/MM/dd HH:mm:ss`.
pub open spec fn rvtools_text(f: (i32, u32, u32, u32, u32, u32)) -> Seq<char> {
    year_text(f.0 as int) + seq!['/'] + two(f.1) + seq!['/'] + two(f.2) + seq![' '] + two(f.3) + seq![':']
        + two(f.4) + seq![':'] + two(f.5)
}

/// A timestamp as RVTools shows it, or the raw text when it is not one.
pub open spec fn created_text(raw: Seq<char>) -> Seq<char> {
    match rfc3339_utc(raw) {
        Some(f) => rvtools_text(f),
        None => raw,
    }
}

fn year_string(y: i32) -> (r: String)
    ensures
        r@ == year_text(y as int),
{
    if 0 <= y && y <= 9999 {
        decimal_padded(y as u64, 4)
    } else if y < 0 {
        let a = decimal_padded((0i64 - y as i64) as u64, 4);
        let mut s = String::new();
        s.push('-');
        proof { assert(s@ =~= seq!['-']); }
        s.concat(a.as_str())
    } else {
        let a = decimal_padded(y as u64, 4);
        let mut s = String::new();
        s.push('+');
        proof { assert(s@ =~= seq!['+']); }
        s.concat(a.as_str())
    }
}

/// RVTools renders snapshot timestamps as `yyyy/MM/dd HH:mm:ss`; text that
/// is not a timestamp is passed through rather than dropped.
pub fn format_created(raw: &str) -> (r: String)
    ensures
        r@ == created_text(raw@),
{
    match rfc3339_fields(raw) {
        Some((y, mo, d, h, mi, s)) => {
            let mut out = year_string(y);
            out.push('/');
            out.append(decimal_padded(mo as u64, 2).as_str());
            out.push('/');
            out.append(decimal_padded(d as u64, 2).as_str());
            out.push(' ');
            out.append(decimal_padded(h as u64, 2).as_str());
            out.push(':');
            out.append(decimal_padded(mi as u64, 2).as_str());
            out.push(':');
            out.append(decimal_padded(s as u64, 2).as_str());
            proof { assert(out@ =~= rvtools_text((y, mo, d, h, mi, s))); }
            out
        },
        None => String::from_str(raw),
    }
}

} // verus!
