use crate::decimal::Decimal;
use crate::measurements::{text_view, Measurements, Reading};
use crate::scan::{first_where, lemma_first_where_is, lemma_first_where_none};
use crate::text::chars_of;
use vstd::prelude::*;

verus! {

/// A value of a record's wire form: a JSON `null`, string, unsigned integer or
/// decimal number.
#[derive(Clone, Debug)]
pub enum WireValue {
    Null,
    Text(String),
    Integer(u64),
    Number(Decimal),
}

/// The mathematical content of a [`WireValue`].
pub enum WireView {
    Null,
    Text(Seq<char>),
    Integer(u64),
    Number(Decimal),
}

pub open spec fn wire_view(v: WireValue) -> WireView {
    match v {
        WireValue::Null => WireView::Null,
        WireValue::Text(s) => WireView::Text(s@),
        WireValue::Integer(n) => WireView::Integer(n),
        WireValue::Number(d) => WireView::Number(d),
    }
}

pub open spec fn fields_view(v: Seq<(String, WireValue)>) -> Seq<(Seq<char>, WireView)> {
    v.map_values(|f: (String, WireValue)| (f.0@, wire_view(f.1)))
}

pub open spec fn text_wire(o: Option<Seq<char>>) -> WireView {
    match o {
        Some(t) => WireView::Text(t),
        None => WireView::Null,
    }
}

pub open spec fn integer_wire(o: Option<u64>) -> WireView {
    match o {
        Some(n) => WireView::Integer(n),
        None => WireView::Null,
    }
}

pub open spec fn number_wire(o: Option<Decimal>) -> WireView {
    match o {
        Some(d) => WireView::Number(d),
        None => WireView::Null,
    }
}

/// The wire form of a reading: its eight fields by name, in a fixed order, each
/// `null` when absent.
pub open spec fn wire_of(r: Reading) -> Seq<(Seq<char>, WireView)> {
    seq![
        ("update_time"@, text_wire(r.update_time)),
        ("humidity"@, integer_wire(r.humidity)),
        ("precipitation"@, number_wire(r.precipitation)),
        ("pressure"@, integer_wire(r.pressure)),
        ("temperature"@, number_wire(r.temperature)),
        ("wind_direction"@, text_wire(r.wind_direction)),
        ("wind_speed"@, integer_wire(r.wind_speed)),
        ("gusts_speed"@, integer_wire(r.gusts_speed)),
    ]
}

/// The value under the first occurrence of `name`.
pub open spec fn value_at(fields: Seq<(Seq<char>, WireView)>, name: Seq<char>) -> Option<WireView> {
    match first_where(fields.len() as int, |i: int| fields[i].0 == name) {
        Some(i) => Some(fields[i].1),
        None => None,
    }
}

/// A text field: missing or `null` is absent, a string is present, anything else
/// does not decode.
pub open spec fn as_text(v: Option<WireView>) -> Option<Option<Seq<char>>> {
    match v {
        None => Some(None),
        Some(WireView::Null) => Some(None),
        Some(WireView::Text(t)) => Some(Some(t)),
        _ => None,
    }
}

/// An integer field: missing or `null` is absent, an unsigned integer is
/// present, anything else does not decode.
pub open spec fn as_integer(v: Option<WireView>) -> Option<Option<u64>> {
    match v {
        None => Some(None),
        Some(WireView::Null) => Some(None),
        Some(WireView::Integer(n)) => Some(Some(n)),
        _ => None,
    }
}

/// A number field: missing or `null` is absent, a decimal is present, anything
/// else does not decode.
pub open spec fn as_number(v: Option<WireView>) -> Option<Option<Decimal>> {
    match v {
        None => Some(None),
        Some(WireView::Null) => Some(None),
        Some(WireView::Number(d)) => Some(Some(d)),
        _ => None,
    }
}

/// The reading that a wire form decodes to, if every field decodes.
pub open spec fn read_wire(f: Seq<(Seq<char>, WireView)>) -> Option<Reading> {
    let update_time = as_text(value_at(f, "update_time"@));
    let humidity = as_integer(value_at(f, "humidity"@));
    let precipitation = as_number(value_at(f, "precipitation"@));
    let pressure = as_integer(value_at(f, "pressure"@));
    let temperature = as_number(value_at(f, "temperature"@));
    let wind_direction = as_text(value_at(f, "wind_direction"@));
    let wind_speed = as_integer(value_at(f, "wind_speed"@));
    let gusts_speed = as_integer(value_at(f, "gusts_speed"@));
    if update_time is Some && humidity is Some && precipitation is Some && pressure is Some
        && temperature is Some && wind_direction is Some && wind_speed is Some
        && gusts_speed is Some {
        Some(
            Reading {
                update_time: update_time->0,
                humidity: humidity->0,
                precipitation: precipitation->0,
                pressure: pressure->0,
                temperature: temperature->0,
                wind_direction: wind_direction->0,
                wind_speed: wind_speed->0,
                gusts_speed: gusts_speed->0,
            },
        )
    } else {
        None
    }
}

/// Encoding a record and decoding it again gives back the same record: the same
/// fields present and absent, with the same values.
pub proof fn lemma_wire_round_trip(r: Reading)
    ensures
        read_wire(wire_of(r)) == Some(r),
{
    let f = wire_of(r);
    reveal_strlit("update_time");
    reveal_strlit("humidity");
    reveal_strlit("precipitation");
    reveal_strlit("pressure");
    reveal_strlit("temperature");
    reveal_strlit("wind_direction");
    reveal_strlit("wind_speed");
    reveal_strlit("gusts_speed");
    let names = seq![
        "update_time"@,
        "humidity"@,
        "precipitation"@,
        "pressure"@,
        "temperature"@,
        "wind_direction"@,
        "wind_speed"@,
        "gusts_speed"@,
    ];
    assert forall|a: int, b: int| 0 <= a < b < 8 implies names[a] != names[b] by {
        assert(names[a].len() != names[b].len() || names[a][0] != names[b][0] || names[a][1]
            != names[b][1] || names[a][names[a].len() - 1] != names[b][names[b].len() - 1]);
    }
    assert forall|k: int| 0 <= k < 8 implies value_at(f, #[trigger] names[k]) == Some(f[k].1) by {
        assert(f[k].0 == names[k]);
        lemma_first_where_is(8, |i: int| f[i].0 == names[k], k);
    }
    assert(value_at(f, names[0]) == Some(f[0].1));
    assert(value_at(f, names[1]) == Some(f[1].1));
    assert(value_at(f, names[2]) == Some(f[2].1));
    assert(value_at(f, names[3]) == Some(f[3].1));
    assert(value_at(f, names[4]) == Some(f[4].1));
    assert(value_at(f, names[5]) == Some(f[5].1));
    assert(value_at(f, names[6]) == Some(f[6].1));
    assert(value_at(f, names[7]) == Some(f[7].1));
}

fn text_value(o: &Option<String>) -> (r: WireValue)
    ensures
        wire_view(r) == text_wire(text_view(*o)),
{
    match o {
        Some(t) => WireValue::Text(t.clone()),
        None => WireValue::Null,
    }
}

fn integer_value(o: Option<u64>) -> (r: WireValue)
    ensures
        wire_view(r) == integer_wire(o),
{
    match o {
        Some(n) => WireValue::Integer(n),
        None => WireValue::Null,
    }
}

fn number_value(o: Option<Decimal>) -> (r: WireValue)
    ensures
        wire_view(r) == number_wire(o),
{
    match o {
        Some(d) => WireValue::Number(d),
        None => WireValue::Null,
    }
}

fn copy_value(v: &WireValue) -> (r: WireValue)
    ensures
        wire_view(r) == wire_view(*v),
{
    match v {
        WireValue::Null => WireValue::Null,
        WireValue::Text(t) => WireValue::Text(t.clone()),
        WireValue::Integer(n) => WireValue::Integer(*n),
        WireValue::Number(d) => WireValue::Number(*d),
    }
}

/// The first field named `name`.
fn find_field(fields: &Vec<(String, WireValue)>, name: &str) -> (r: Option<WireValue>)
    ensures
        match r {
            Some(v) => value_at(fields_view(fields@), name@) == Some(wire_view(v)),
            None => value_at(fields_view(fields@), name@) is None,
        },
{
    let ghost f = fields_view(fields@);
    let ghost p = |i: int| f[i].0 == name@;
    let mut i: usize = 0;
    while i < fields.len()
        invariant
            i <= fields@.len() == f.len(),
            f == fields_view(fields@),
            p == (|i: int| f[i].0 == name@),
            forall|j: int| 0 <= j < i ==> !#[trigger] p(j),
        decreases fields@.len() - i,
    {
        let key = chars_of(fields[i].0.as_str());
        assert(f[i as int].0 == fields@[i as int].0@);
        if crate::scan::is_text(&key, name) {
            proof {
                lemma_first_where_is(f.len() as int, p, i as int);
            }
            return Some(copy_value(&fields[i].1));
        }
        i = i + 1;
    }
    proof {
        lemma_first_where_none(f.len() as int, p);
    }
    None
}

impl Measurements {
    /// The wire form of this record, as [`wire_of`] states it.
    pub fn to_wire(&self) -> (r: Vec<(String, WireValue)>)
        ensures
            fields_view(r@) == wire_of(self@),
    {
        let mut r: Vec<(String, WireValue)> = Vec::new();
        r.push(("update_time".to_string(), text_value(&self.update_time)));
        r.push(("humidity".to_string(), integer_value(self.humidity)));
        r.push(("precipitation".to_string(), number_value(self.precipitation)));
        r.push(("pressure".to_string(), integer_value(self.pressure)));
        r.push(("temperature".to_string(), number_value(self.temperature)));
        r.push(("wind_direction".to_string(), text_value(&self.wind_direction)));
        r.push(("wind_speed".to_string(), integer_value(self.wind_speed)));
        r.push(("gusts_speed".to_string(), integer_value(self.gusts_speed)));
        assert(fields_view(r@) =~= wire_of(self@));
        r
    }

    /// The record a wire form decodes to, as [`read_wire`] states it.
    pub fn from_wire(fields: &Vec<(String, WireValue)>) -> (r: Option<Measurements>)
        ensures
            match r {
                Some(m) => read_wire(fields_view(fields@)) == Some(m@),
                None => read_wire(fields_view(fields@)) is None,
            },
    {
        let update_time = match find_field(fields, "update_time") {
            None | Some(WireValue::Null) => None,
            Some(WireValue::Text(t)) => Some(t),
            _ => {
                return None;
            },
        };
        let humidity = match find_field(fields, "humidity") {
            None | Some(WireValue::Null) => None,
            Some(WireValue::Integer(n)) => Some(n),
            _ => {
                return None;
            },
        };
        let precipitation = match find_field(fields, "precipitation") {
            None | Some(WireValue::Null) => None,
            Some(WireValue::Number(d)) => Some(d),
            _ => {
                return None;
            },
        };
        let pressure = match find_field(fields, "pressure") {
            None | Some(WireValue::Null) => None,
            Some(WireValue::Integer(n)) => Some(n),
            _ => {
                return None;
            },
        };
        let temperature = match find_field(fields, "temperature") {
            None | Some(WireValue::Null) => None,
            Some(WireValue::Number(d)) => Some(d),
            _ => {
                return None;
            },
        };
        let wind_direction = match find_field(fields, "wind_direction") {
            None | Some(WireValue::Null) => None,
            Some(WireValue::Text(t)) => Some(t),
            _ => {
                return None;
            },
        };
        let wind_speed = match find_field(fields, "wind_speed") {
            None | Some(WireValue::Null) => None,
            Some(WireValue::Integer(n)) => Some(n),
            _ => {
                return None;
            },
        };
        let gusts_speed = match find_field(fields, "gusts_speed") {
            None | Some(WireValue::Null) => None,
            Some(WireValue::Integer(n)) => Some(n),
            _ => {
                return None;
            },
        };
        Some(
            Measurements {
                update_time,
                humidity,
                precipitation,
                pressure,
                temperature,
                wind_direction,
                wind_speed,
                gusts_speed,
            },
        )
    }
}

} // verus!
