use crate::compass::{compass_of, wind_direction_name};
use crate::decimal::{decimal_of, parse_decimal, round_to_u64, rounded, Decimal};
use crate::fields::{
    amount, keep_amount, keep_percent, opt_time_text, outcome_view, percent, settle, settled,
    time_string, valid_reading,
};
use crate::measurements::{absent, DownloadError, Measurements, Reading};
use crate::scan::{first_where, is_text, lemma_first_where_is, lemma_first_where_none};
use crate::text::{chars_of, has_prefix, parse_u64, push_all, string_of, strip_prefix, u64_of};
use crate::timestamp::{utc_from_timestamp, utc_of_secs};
use vstd::prelude::*;

verus! {

/// The prefix of WeatherLink's embeddable station pages.
pub const BASE_URL: &'static str = "https://www.weatherlink.com/";

/// The prefix of a station's embeddable page; the station's id follows it.
pub const SHOW_PREFIX: &'static str = "https://www.weatherlink.com/embeddablePage/show/";

/// The prefix of a station's data endpoint; the station's id follows it.
pub const DATA_PREFIX: &'static str = "https://www.weatherlink.com/embeddablePage/getData/";

/// Reads the JSON data behind a WeatherLink embeddable station page.
pub struct WeatherlinkDownloader {}

/// The fields of a WeatherLink data document that a reading uses. Numbers that
/// the document writes as text stay text here.
#[derive(Clone, Debug)]
pub struct WeatherlinkPayload {
    /// Degrees.
    pub wind_direction: i64,
    pub barometer_units: String,
    pub wind_units: String,
    pub rain_units: String,
    pub temp_units: String,
    pub temperature: String,
    pub wind: String,
    pub gust: String,
    pub humidity: String,
    pub rain: String,
    pub barometer: String,
    /// Milliseconds since the Unix epoch.
    pub last_received: u64,
}

/// The text up to the first `/`.
pub open spec fn first_segment(s: Seq<char>) -> Seq<char> {
    match first_where(s.len() as int, |i: int| s[i] == '/') {
        Some(k) => s.subrange(0, k),
        None => s,
    }
}

/// The data address for a station page: the station id is the path segment after
/// the embeddable-page prefix.
pub open spec fn data_url(url: Seq<char>) -> Result<Seq<char>, DownloadError> {
    if has_prefix(url, SHOW_PREFIX@) {
        Ok(DATA_PREFIX@ + first_segment(url.subrange(SHOW_PREFIX@.len() as int, url.len() as int)))
    } else {
        Err(DownloadError::Format)
    }
}

/// The document reports pressure in millibars or hectopascals (the same unit),
/// wind in km/h, rain in mm and temperature in degrees Celsius.
pub open spec fn units_ok(p: WeatherlinkPayload) -> bool {
    &&& (p.barometer_units@ == "mb"@ || p.barometer_units@ == "hPa"@)
    &&& p.wind_units@ == "km/h"@
    &&& p.rain_units@ == "mm"@
    &&& p.temp_units@ == "&deg;C"@
}

/// Whole seconds of a millisecond timestamp, with the timestamp taken as a
/// two's-complement `i64` and divided toward zero.
pub open spec fn stamp_secs(ms: u64) -> int {
    if ms <= i64::MAX {
        (ms / 1000) as int
    } else {
        -((0x1_0000_0000_0000_0000 - ms) / 1000)
    }
}

/// The reading that a data document gives.
pub open spec fn payload_reading(p: WeatherlinkPayload) -> Result<Reading, DownloadError> {
    if !units_ok(p) {
        Err(DownloadError::Validation)
    } else if percent(u64_of(p.humidity@)) is None || amount(decimal_of(p.rain@)) is None
        || decimal_of(
        p.barometer@,
    ) is None || decimal_of(p.temperature@) is None || u64_of(p.wind@) is None || u64_of(
        p.gust@,
    ) is None {
        Err(DownloadError::Parse)
    } else {
        Ok(
            Reading {
                update_time: opt_time_text(utc_of_secs(stamp_secs(p.last_received))),
                humidity: u64_of(p.humidity@),
                precipitation: decimal_of(p.rain@),
                pressure: Some(rounded(decimal_of(p.barometer@)->0) as u64),
                temperature: decimal_of(p.temperature@),
                wind_direction: Some(
                    compass_of(Decimal { mantissa: p.wind_direction, scale: 0 }),
                ),
                wind_speed: u64_of(p.wind@),
                gusts_speed: u64_of(p.gust@),
            },
        )
    }
}

fn first_segment_exec(s: &Vec<char>) -> (r: Vec<char>)
    ensures
        r@ == first_segment(s@),
{
    let ghost p = |i: int| s@[i] == '/';
    let mut r: Vec<char> = Vec::new();
    let mut i: usize = 0;
    while i < s.len()
        invariant
            i <= s@.len(),
            p == (|i: int| s@[i] == '/'),
            forall|j: int| 0 <= j < i ==> !#[trigger] p(j),
            r@ == s@.subrange(0, i as int),
        decreases s@.len() - i,
    {
        if s[i] == '/' {
            proof {
                lemma_first_where_is(s@.len() as int, p, i as int);
            }
            return r;
        }
        r.push(s[i]);
        i = i + 1;
        assert(r@ =~= s@.subrange(0, i as int));
    }
    proof {
        lemma_first_where_none(s@.len() as int, p);
    }
    assert(r@ =~= s@);
    r
}

fn is_str(s: &String, lit: &str) -> (r: bool)
    ensures
        r == (s@ == lit@),
{
    is_text(&chars_of(s.as_str()), lit)
}

impl WeatherlinkDownloader {
    /// The prefix of the URLs this collector claims.
    pub fn base_url(&self) -> (r: String)
        ensures
            r@ == BASE_URL@,
    {
        BASE_URL.to_string()
    }

    /// The data address for a station page, as [`data_url`] states it.
    pub fn request_url(&self, url: &str) -> (r: Result<String, DownloadError>)
        ensures
            match r {
                Ok(t) => data_url(url@) == Ok::<Seq<char>, DownloadError>(t@),
                Err(e) => data_url(url@) == Err::<Seq<char>, DownloadError>(e),
            },
    {
        let u = chars_of(url);
        match strip_prefix(&u, SHOW_PREFIX) {
            Some(rest) => {
                let id = first_segment_exec(&rest);
                let mut out = chars_of(DATA_PREFIX);
                push_all(&mut out, &id);
                Ok(string_of(&out))
            },
            None => Err(DownloadError::Format),
        }
    }

    /// The reading of a data document, as [`payload_reading`] states it.
    pub fn reading_from_payload(p: &WeatherlinkPayload) -> (r: Result<Measurements, DownloadError>)
        ensures
            outcome_view(r) == payload_reading(*p),
            r matches Ok(m) ==> valid_reading(m@),
    {
        let units = (is_str(&p.barometer_units, "mb") || is_str(&p.barometer_units, "hPa"))
            && is_str(&p.wind_units, "km/h") && is_str(&p.rain_units, "mm") && is_str(
            &p.temp_units,
            "&deg;C",
        );
        if !units {
            return Err(DownloadError::Validation);
        }
        let humidity = parse_u64(&chars_of(p.humidity.as_str()));
        let rain = parse_decimal(&chars_of(p.rain.as_str()));
        let barometer = parse_decimal(&chars_of(p.barometer.as_str()));
        let temperature = parse_decimal(&chars_of(p.temperature.as_str()));
        let wind = parse_u64(&chars_of(p.wind.as_str()));
        let gust = parse_u64(&chars_of(p.gust.as_str()));
        let pressure = match barometer {
            Some(b) => round_to_u64(b),
            None => {
                return Err(DownloadError::Parse);
            },
        };
        if keep_percent(humidity).is_none() || keep_amount(rain).is_none() || temperature.is_none()
            || wind.is_none() || gust.is_none() {
            return Err(DownloadError::Parse);
        }
        let ms = p.last_received;
        let secs: i64 = if ms <= i64::MAX as u64 {
            (ms / 1000) as i64
        } else {
            -(((u64::MAX - ms + 1) / 1000) as i64)
        };
        let nanos: u32 = ((ms % 1000) * 1_000_000) as u32;
        assert(nanos < 1_000_000_000);
        let stamp = utc_from_timestamp(secs, nanos);
        let heading = Decimal::from_int(p.wind_direction);
        Ok(
            Measurements {
                update_time: time_string(stamp),
                humidity,
                precipitation: rain,
                pressure: Some(pressure),
                temperature,
                wind_direction: Some(wind_direction_name(heading).to_string()),
                wind_speed: wind,
                gusts_speed: gust,
            },
        )
    }

    /// The total form: a failed fetch or an unreadable document gives the
    /// all-absent record.
    pub fn download(&self, fetched: Result<WeatherlinkPayload, DownloadError>) -> (m: Measurements)
        ensures
            match fetched {
                Ok(p) => m@ == settled(payload_reading(p)),
                Err(_) => m@ == absent(),
            },
            valid_reading(m@),
    {
        match fetched {
            Ok(p) => settle(Self::reading_from_payload(&p)),
            Err(e) => settle(Err(e)),
        }
    }
}

} // verus!
