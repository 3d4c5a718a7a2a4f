use crate::decimal::{decimal_of, parse_decimal, round_to_u64, rounded, Decimal};
use crate::compass::{compass_code, is_compass_code, is_compass_code_exec};
use crate::measurements::{absent, text_view, DownloadError, Measurements, Reading};
use crate::scan::strings;
use crate::text::{parse_u64, string_of, u64_of};
use crate::timestamp::{format_time, time_text, CivilTime};
use vstd::prelude::*;

verus! {

/// An optional field read as an unsigned integer; unreadable text gives nothing.
pub open spec fn opt_u64(f: Option<Seq<char>>) -> Option<u64> {
    match f {
        Some(t) => u64_of(t),
        None => None,
    }
}

/// An optional field read as a decimal number; unreadable text gives nothing.
pub open spec fn opt_decimal(f: Option<Seq<char>>) -> Option<Decimal> {
    match f {
        Some(t) => decimal_of(t),
        None => None,
    }
}

/// An optional field read as a decimal number and rounded to a whole number.
pub open spec fn opt_rounded(f: Option<Seq<char>>) -> Option<u64> {
    match opt_decimal(f) {
        Some(d) => Some(rounded(d) as u64),
        None => None,
    }
}

/// An optional time as `YYYY-MM-DD HH:MM`.
pub open spec fn opt_time_text(t: Option<CivilTime>) -> Option<Seq<char>> {
    match t {
        Some(u) => Some(time_text(u)),
        None => None,
    }
}

/// The content of a collector's outcome.
pub open spec fn outcome_view(r: Result<Measurements, DownloadError>) -> Result<
    Reading,
    DownloadError,
> {
    match r {
        Ok(m) => Ok(m@),
        Err(e) => Err(e),
    }
}

/// The record that a collector's outcome settles to: the reading, or the
/// all-absent record on any failure.
pub open spec fn settled(r: Result<Reading, DownloadError>) -> Reading {
    match r {
        Ok(m) => m,
        Err(_) => absent(),
    }
}

/// Collapses a collector's outcome into a record: a failure becomes the
/// all-absent record, so that one station's trouble never reaches the batch.
pub fn settle(r: Result<Measurements, DownloadError>) -> (m: Measurements)
    ensures
        m@ == settled(outcome_view(r)),
{
    match r {
        Ok(m) => m,
        Err(_) => Measurements::empty(),
    }
}

pub fn read_u64(f: &Option<Vec<char>>) -> (r: Option<u64>)
    ensures
        r == opt_u64(opt_text(*f)),
{
    match f {
        Some(t) => parse_u64(t),
        None => None,
    }
}

pub fn read_decimal(f: &Option<Vec<char>>) -> (r: Option<Decimal>)
    ensures
        r == opt_decimal(opt_text(*f)),
        r matches Some(d) ==> d.wf(),
{
    match f {
        Some(t) => parse_decimal(t),
        None => None,
    }
}

pub fn read_rounded(f: &Option<Vec<char>>) -> (r: Option<u64>)
    ensures
        r == opt_rounded(opt_text(*f)),
{
    match read_decimal(f) {
        Some(d) => Some(round_to_u64(d)),
        None => None,
    }
}

/// The text of an optional character vector.
pub open spec fn opt_text(f: Option<Vec<char>>) -> Option<Seq<char>> {
    match f {
        Some(t) => Some(t@),
        None => None,
    }
}

/// Writes an optional time as `YYYY-MM-DD HH:MM`.
pub fn time_string(t: Option<CivilTime>) -> (r: Option<String>)
    requires
        t matches Some(u) ==> u.wf(),
    ensures
        text_view(r) == opt_time_text(t),
{
    match t {
        Some(u) => Some(string_of(&format_time(u))),
        None => None,
    }
}

/// A humidity kept only within 0 to 100 percent. The table sources (AEMET,
/// Meteocat) leave a cell they cannot read absent, and treat a humidity outside
/// that range the same way; the sources that fail on an unreadable value
/// (Meteoclimatic, WeatherLink) fail on an out-of-range one instead.
pub open spec fn percent(o: Option<u64>) -> Option<u64> {
    match o {
        Some(n) => if n <= 100 {
            Some(n)
        } else {
            None
        },
        None => None,
    }
}

/// An amount of precipitation kept only if it is not negative. As with
/// [`percent`], the table sources leave a negative amount absent, the others
/// fail on it.
pub open spec fn amount(o: Option<Decimal>) -> Option<Decimal> {
    match o {
        Some(d) => if d.mantissa >= 0 {
            Some(d)
        } else {
            None
        },
        None => None,
    }
}

/// A record within the ranges of its fields: humidity 0 to 100, precipitation not
/// negative, wind direction one of the sixteen compass codes.
pub open spec fn valid_reading(r: Reading) -> bool {
    &&& (r.humidity matches Some(h) ==> h <= 100)
    &&& (r.precipitation matches Some(d) ==> d.mantissa >= 0)
    &&& (r.wind_direction matches Some(w) ==> is_compass_code(w))
}

pub fn keep_percent(o: Option<u64>) -> (r: Option<u64>)
    ensures
        r == percent(o),
{
    match o {
        Some(n) => if n <= 100 {
            Some(n)
        } else {
            None
        },
        None => None,
    }
}

pub fn keep_amount(o: Option<Decimal>) -> (r: Option<Decimal>)
    ensures
        r == amount(o),
{
    match o {
        Some(d) => if d.mantissa >= 0 {
            Some(d)
        } else {
            None
        },
        None => None,
    }
}

/// A text kept only if it is one of the sixteen compass codes.
pub fn keep_compass_code(s: &Vec<char>) -> (r: Option<String>)
    ensures
        text_view(r) == compass_code(s@),
{
    if is_compass_code_exec(s) {
        Some(string_of(s))
    } else {
        None
    }
}

/// The views of extracted header attributes.
pub open spec fn header_views(h: Seq<(Option<String>, Option<String>)>) -> Seq<
    (Option<Seq<char>>, Option<Seq<char>>),
> {
    h.map_values(|x: (Option<String>, Option<String>)| (text_view(x.0), text_view(x.1)))
}

/// The views of extracted rows of cell texts.
pub open spec fn row_views(rows: Seq<Vec<String>>) -> Seq<Seq<Seq<char>>> {
    rows.map_values(|r: Vec<String>| strings(r@))
}

} // verus!
