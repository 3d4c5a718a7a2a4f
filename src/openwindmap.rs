use crate::compass::{compass_of, wind_direction_name};
use crate::decimal::{decimal_of, parse_decimal, round_to_u64, rounded};
use crate::fields::{outcome_view, settle, settled, time_string, valid_reading};
use crate::measurements::{absent, DownloadError, Measurements, Reading};
use crate::text::{
    chars_of, has_prefix, push_all, split_on, split_on_exec, string_of, strip_prefix, texts,
};
use crate::timestamp::{parse_utc, time_text, utc_of_rfc3339};
use vstd::prelude::*;

verus! {

/// The prefix of OpenWindMap's station pages.
pub const BASE_URL: &'static str = "https://www.openwindmap.org/";

/// The live-data endpoint of the Pioupiou stations behind OpenWindMap; the
/// station's id follows it.
pub const API_URL: &'static str = "http://api.pioupiou.fr/v1/live/";

/// Reads the live JSON data of an OpenWindMap (Pioupiou) wind station.
pub struct OpenWindMapDownloader {}

/// The fields of a live-data document that a reading uses: the measurement time
/// and the decimal texts of the heading and the mean and peak wind speeds.
#[derive(Clone, Debug)]
pub struct OpenWindMapPayload {
    pub date: String,
    pub wind_heading: String,
    pub wind_speed_avg: String,
    pub wind_speed_max: String,
}

/// The data address for a station page: the station id is the second `-`-separated
/// part of the path.
pub open spec fn data_url(url: Seq<char>) -> Result<Seq<char>, DownloadError> {
    if has_prefix(url, BASE_URL@) {
        let parts = split_on(url.subrange(BASE_URL@.len() as int, url.len() as int), '-');
        if parts.len() > 1 {
            Ok(API_URL@ + parts[1])
        } else {
            Err(DownloadError::Format)
        }
    } else {
        Err(DownloadError::Format)
    }
}

/// The reading that a live-data document gives: time, heading and speeds only.
pub open spec fn payload_reading(p: OpenWindMapPayload) -> Result<Reading, DownloadError> {
    match (
        utc_of_rfc3339(p.date@),
        decimal_of(p.wind_heading@),
        decimal_of(p.wind_speed_avg@),
        decimal_of(p.wind_speed_max@),
    ) {
        (Some(t), Some(h), Some(avg), Some(max)) => Ok(
            Reading {
                update_time: Some(time_text(t)),
                humidity: None,
                precipitation: None,
                pressure: None,
                temperature: None,
                wind_direction: Some(compass_of(h)),
                wind_speed: Some(rounded(avg) as u64),
                gusts_speed: Some(rounded(max) as u64),
            },
        ),
        _ => Err(DownloadError::Parse),
    }
}

impl OpenWindMapDownloader {
    /// The prefix of the URLs this collector claims.
    pub fn base_url(&self) -> (r: String)
        ensures
            r@ == BASE_URL@,
    {
        BASE_URL.to_string()
    }

    /// The data address for a station page, as [`data_url`] states it.
    pub fn request_url(&self, url: &str) -> (r: Result<String, DownloadError>)
        ensures
            match r {
                Ok(t) => data_url(url@) == Ok::<Seq<char>, DownloadError>(t@),
                Err(e) => data_url(url@) == Err::<Seq<char>, DownloadError>(e),
            },
    {
        let u = chars_of(url);
        match strip_prefix(&u, BASE_URL) {
            Some(rest) => {
                let parts = split_on_exec(&rest, '-');
                if parts.len() > 1 {
                    let mut out = chars_of(API_URL);
                    push_all(&mut out, &parts[1]);
                    assert(texts(parts@)[1] == parts@[1]@);
                    Ok(string_of(&out))
                } else {
                    Err(DownloadError::Format)
                }
            },
            None => Err(DownloadError::Format),
        }
    }

    /// The reading of a live-data document, as [`payload_reading`] states it.
    pub fn reading_from_payload(p: &OpenWindMapPayload) -> (r: Result<Measurements, DownloadError>)
        ensures
            outcome_view(r) == payload_reading(*p),
            r matches Ok(m) ==> valid_reading(m@),
    {
        let t = parse_utc(p.date.as_str());
        let h = parse_decimal(&chars_of(p.wind_heading.as_str()));
        let avg = parse_decimal(&chars_of(p.wind_speed_avg.as_str()));
        let max = parse_decimal(&chars_of(p.wind_speed_max.as_str()));
        match (t, h, avg, max) {
            (Some(t), Some(h), Some(avg), Some(max)) => Ok(
                Measurements {
                    update_time: time_string(Some(t)),
                    humidity: None,
                    precipitation: None,
                    pressure: None,
                    temperature: None,
                    wind_direction: Some(wind_direction_name(h).to_string()),
                    wind_speed: Some(round_to_u64(avg)),
                    gusts_speed: Some(round_to_u64(max)),
                },
            ),
            _ => Err(DownloadError::Parse),
        }
    }

    /// The total form: a failed fetch or an unreadable document gives the
    /// all-absent record.
    pub fn download(&self, fetched: Result<OpenWindMapPayload, DownloadError>) -> (m: Measurements)
        ensures
            match fetched {
                Ok(p) => m@ == settled(payload_reading(p)),
                Err(_) => m@ == absent(),
            },
            valid_reading(m@),
    {
        match fetched {
            Ok(p) => settle(Self::reading_from_payload(&p)),
            Err(e) => settle(Err(e)),
        }
    }
}

} // verus!
