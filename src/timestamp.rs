use chrono::{Datelike, TimeZone, Timelike};
use vstd::prelude::*;

verus! {

/// A calendar date and a time of day to the minute.
#[derive(Clone, Copy, Debug, PartialEq, Eq)]
pub struct CivilTime {
    pub year: i32,
    pub month: u32,
    pub day: u32,
    pub hour: u32,
    pub minute: u32,
}

/// The year range of chrono's dates.
pub const MIN_YEAR: i32 = -262_143;
pub const MAX_YEAR: i32 = 262_142;

impl CivilTime {
    pub open spec fn wf(self) -> bool {
        &&& MIN_YEAR <= self.year <= MAX_YEAR
        &&& 1 <= self.month <= 12
        &&& 1 <= self.day <= 31
        &&& self.hour < 24
        &&& self.minute < 60
    }
}

/// The date and time that chrono's `NaiveDateTime::parse_from_str` reads from a
/// text in a format, if it reads one.
pub uninterp spec fn naive_time_of(text: Seq<char>, format: Seq<char>) -> Option<CivilTime>;

/// What chrono-tz gives for a wall-clock time in Europe/Madrid turned into UTC,
/// when that wall-clock time names exactly one instant.
pub uninterp spec fn madrid_to_utc_of(local: CivilTime) -> Option<CivilTime>;

/// The proleptic Gregorian date `(year, month, day)` of a day number, with
/// 1970-01-01 as day 0 (days counted in eras of 400 years, years starting in March).
pub open spec fn civil_of_days(days: int) -> (int, int, int) {
    let z = days + 719468;
    let era = z / 146097;
    let doe = z - era * 146097;
    let yoe = (doe - doe / 1460 + doe / 36524 - doe / 146096) / 365;
    let doy = doe - (365 * yoe + yoe / 4 - yoe / 100);
    let mp = (5 * doy + 2) / 153;
    let d = doy - (153 * mp + 2) / 5 + 1;
    let m = if mp < 10 {
        mp + 3
    } else {
        mp - 9
    };
    (yoe + era * 400 + (if m <= 2 {
        1int
    } else {
        0int
    }), m, d)
}

/// The UTC time to the minute of a count of seconds since the Unix epoch, or
/// `None` when its year is outside chrono's range.
pub open spec fn utc_of_secs(secs: int) -> Option<CivilTime> {
    let (y, m, d) = civil_of_days(secs / 86400);
    let rem = secs % 86400;
    if MIN_YEAR <= y <= MAX_YEAR {
        Some(
            CivilTime {
                year: y as i32,
                month: m as u32,
                day: d as u32,
                hour: (rem / 3600) as u32,
                minute: (rem % 3600 / 60) as u32,
            },
        )
    } else {
        None
    }
}

/// The UTC time that chrono reads from an RFC 3339 text (`str::parse::<DateTime<Utc>>`).
pub uninterp spec fn utc_of_rfc3339(text: Seq<char>) -> Option<CivilTime>;

/// Relies on chrono's `NaiveDateTime::parse_from_str`: the date and time read from
/// `text` in `format`, whose fields stay in chrono's ranges.
#[verifier::external_body]
pub(crate) fn parse_naive(text: &str, format: &str) -> (r: Option<CivilTime>)
    ensures
        r == naive_time_of(text@, format@),
        r matches Some(t) ==> t.wf(),
{
    chrono::NaiveDateTime::parse_from_str(text, format).ok().map(|t| CivilTime {
        year: t.year(),
        month: t.month(),
        day: t.day(),
        hour: t.hour(),
        minute: t.minute(),
    })
}

/// Relies on chrono-tz's `Europe::Madrid` with chrono's `TimeZone::from_local_datetime`
/// and `LocalResult::single`: the UTC time of a Madrid wall-clock time that names
/// one instant. The input has no seconds; the output's seconds are dropped.
#[verifier::external_body]
pub(crate) fn madrid_to_utc(local: CivilTime) -> (r: Option<CivilTime>)
    ensures
        r == madrid_to_utc_of(local),
        r matches Some(t) ==> t.wf(),
{
    let date = chrono::NaiveDate::from_ymd_opt(local.year, local.month, local.day)?;
    let naive = date.and_hms_opt(local.hour, local.minute, 0)?;
    let u = chrono_tz::Europe::Madrid.from_local_datetime(&naive).single()?.naive_utc();
    Some(CivilTime { year: u.year(), month: u.month(), day: u.day(), hour: u.hour(), minute: u.minute() })
}

/// Relies on chrono's `DateTime::from_timestamp`: the proleptic Gregorian UTC
/// time of a Unix timestamp, `None` when its year is outside chrono's range
/// (with under a second of nanoseconds, the time part is always valid).
#[verifier::external_body]
pub(crate) fn utc_from_timestamp(secs: i64, nanos: u32) -> (r: Option<CivilTime>)
    requires
        nanos < 1_000_000_000,
    ensures
        r == utc_of_secs(secs as int),
        r matches Some(t) ==> t.wf(),
{
    chrono::DateTime::from_timestamp(secs, nanos).map(|t| CivilTime {
        year: t.year(),
        month: t.month(),
        day: t.day(),
        hour: t.hour(),
        minute: t.minute(),
    })
}

/// Relies on chrono's `FromStr` for `DateTime<Utc>`: an RFC 3339 text with any
/// offset, turned into UTC.
#[verifier::external_body]
pub(crate) fn parse_utc(text: &str) -> (r: Option<CivilTime>)
    ensures
        r == utc_of_rfc3339(text@),
        r matches Some(t) ==> t.wf(),
{
    text.parse::<chrono::DateTime<chrono::Utc>>().ok().map(|t| CivilTime {
        year: t.year(),
        month: t.month(),
        day: t.day(),
        hour: t.hour(),
        minute: t.minute(),
    })
}

pub open spec fn digit_char(d: nat) -> char {
    ((d % 10) + ('0' as nat)) as char
}

/// `n` in decimal, zero-padded to at least `width` digits.
pub open spec fn padded(n: nat, width: nat) -> Seq<char>
    decreases n, width,
{
    if n < 10 && width <= 1 {
        seq![digit_char(n)]
    } else {
        padded(n / 10, if width > 0 { (width - 1) as nat } else { 0 }).push(digit_char(n % 10))
    }
}

/// A year as chrono's `%Y` writes it: four digits within 0 to 9999, else a sign
/// and at least four digits.
pub open spec fn year_text(y: int) -> Seq<char> {
    if 0 <= y <= 9999 {
        padded(y as nat, 4)
    } else if y > 0 {
        seq!['+'] + padded(y as nat, 4)
    } else {
        seq!['-'] + padded((-y) as nat, 4)
    }
}

/// The text `YYYY-MM-DD HH:MM` of a time.
pub open spec fn time_text(t: CivilTime) -> Seq<char> {
    year_text(t.year as int) + seq!['-'] + padded(t.month as nat, 2) + seq!['-'] + padded(
        t.day as nat,
        2,
    ) + seq![' '] + padded(t.hour as nat, 2) + seq![':'] + padded(t.minute as nat, 2)
}

fn push_padded(out: &mut Vec<char>, n: u32, width: u32)
    ensures
        final(out)@ == old(out)@ + padded(n as nat, width as nat),
    decreases n, width,
{
    if n < 10 && width <= 1 {
        out.push(char_of_digit(n));
    } else {
        let w = if width > 0 {
            width - 1
        } else {
            0
        };
        push_padded(out, n / 10, w);
        out.push(char_of_digit(n % 10));
        proof {
            assert(padded(n as nat, width as nat) == padded((n / 10) as nat, w as nat).push(
                digit_char((n % 10) as nat),
            ));
        }
    }
}

fn char_of_digit(d: u32) -> (c: char)
    requires
        d < 10,
    ensures
        c == digit_char(d as nat),
{
    if d == 0 { '0' }
    else if d == 1 { '1' }
    else if d == 2 { '2' }
    else if d == 3 { '3' }
    else if d == 4 { '4' }
    else if d == 5 { '5' }
    else if d == 6 { '6' }
    else if d == 7 { '7' }
    else if d == 8 { '8' }
    else { '9' }
}

/// Writes a time as `YYYY-MM-DD HH:MM`.
pub fn format_time(t: CivilTime) -> (r: Vec<char>)
    requires
        t.wf(),
    ensures
        r@ == time_text(t),
{
    let mut out: Vec<char> = Vec::new();
    if 0 <= t.year && t.year <= 9999 {
        push_padded(&mut out, t.year as u32, 4);
    } else if t.year > 0 {
        out.push('+');
        push_padded(&mut out, t.year as u32, 4);
    } else {
        out.push('-');
        push_padded(&mut out, (-t.year) as u32, 4);
    }
    assert(out@ == year_text(t.year as int));
    out.push('-');
    push_padded(&mut out, t.month, 2);
    out.push('-');
    push_padded(&mut out, t.day, 2);
    out.push(' ');
    push_padded(&mut out, t.hour, 2);
    out.push(':');
    push_padded(&mut out, t.minute, 2);
    assert(out@ =~= time_text(t));
    out
}

} // verus!
