use crate::decimal::Decimal;
use vstd::prelude::*;

verus! {

/// Why a collector could not produce a record.
#[derive(Clone, Copy, Debug, PartialEq, Eq)]
pub enum DownloadError {
    /// The transport or the HTTP status failed.
    Network,
    /// An expected element (table, header, row, key) is not in the document.
    Format,
    /// A field's text could not be read as its type.
    Parse,
    /// The source reported units outside the expected set.
    Validation,
}

/// One station's reading in the fixed field set and units. Every field is
/// independently present or absent; absent means the source did not report it.
#[derive(Clone, Debug)]
pub struct Measurements {
    /// UTC, as `YYYY-MM-DD HH:MM`.
    pub update_time: Option<String>,
    /// Percent.
    pub humidity: Option<u64>,
    /// Millimetres.
    pub precipitation: Option<Decimal>,
    /// Hectopascals, rounded to the nearest whole number.
    pub pressure: Option<u64>,
    /// Degrees Celsius.
    pub temperature: Option<Decimal>,
    /// One of the sixteen compass codes.
    pub wind_direction: Option<String>,
    /// Kilometres per hour.
    pub wind_speed: Option<u64>,
    /// Kilometres per hour.
    pub gusts_speed: Option<u64>,
}

/// The mathematical content of a [`Measurements`].
pub struct Reading {
    pub update_time: Option<Seq<char>>,
    pub humidity: Option<u64>,
    pub precipitation: Option<Decimal>,
    pub pressure: Option<u64>,
    pub temperature: Option<Decimal>,
    pub wind_direction: Option<Seq<char>>,
    pub wind_speed: Option<u64>,
    pub gusts_speed: Option<u64>,
}

pub open spec fn text_view(s: Option<String>) -> Option<Seq<char>> {
    match s {
        Some(t) => Some(t@),
        None => None,
    }
}

/// The record with every field absent.
pub open spec fn absent() -> Reading {
    Reading {
        update_time: None,
        humidity: None,
        precipitation: None,
        pressure: None,
        temperature: None,
        wind_direction: None,
        wind_speed: None,
        gusts_speed: None,
    }
}

impl View for Measurements {
    type V = Reading;

    open spec fn view(&self) -> Reading {
        Reading {
            update_time: text_view(self.update_time),
            humidity: self.humidity,
            precipitation: self.precipitation,
            pressure: self.pressure,
            temperature: self.temperature,
            wind_direction: text_view(self.wind_direction),
            wind_speed: self.wind_speed,
            gusts_speed: self.gusts_speed,
        }
    }
}

impl Measurements {
    /// The canonical empty record: what a station yields when nothing could be read.
    pub fn empty() -> (r: Measurements)
        ensures
            r@ == absent(),
    {
        Measurements {
            update_time: None,
            humidity: None,
            precipitation: None,
            pressure: None,
            temperature: None,
            wind_direction: None,
            wind_speed: None,
            gusts_speed: None,
        }
    }
}

impl Default for Measurements {
    fn default() -> (r: Measurements)
        ensures
            r@ == absent(),
    {
        Measurements::empty()
    }
}

/// The unit of each field, the same on every response.
pub open spec fn units_table() -> Seq<(Seq<char>, Seq<char>)> {
    seq![
        ("update_time"@, "UTC"@),
        ("humidity"@, "%"@),
        ("precipitation"@, "mm"@),
        ("pressure"@, "hPa"@),
        ("temperature"@, "\u{00B0}C"@),
        ("wind_direction"@, ""@),
        ("wind_speed"@, "km/h"@),
        ("gusts_speed"@, "km/h"@),
    ]
}

pub open spec fn pairs_view(v: Seq<(String, String)>) -> Seq<(Seq<char>, Seq<char>)> {
    v.map_values(|p: (String, String)| (p.0@, p.1@))
}

/// The fixed map from field name to unit.
pub fn get_units() -> (r: Vec<(String, String)>)
    ensures
        pairs_view(r@) == units_table(),
{
    let mut r: Vec<(String, String)> = Vec::new();
    r.push(("update_time".to_string(), "UTC".to_string()));
    r.push(("humidity".to_string(), "%".to_string()));
    r.push(("precipitation".to_string(), "mm".to_string()));
    r.push(("pressure".to_string(), "hPa".to_string()));
    r.push(("temperature".to_string(), "\u{00B0}C".to_string()));
    r.push(("wind_direction".to_string(), "".to_string()));
    r.push(("wind_speed".to_string(), "km/h".to_string()));
    r.push(("gusts_speed".to_string(), "km/h".to_string()));
    assert(pairs_view(r@) =~= units_table());
    r
}

} // verus!
