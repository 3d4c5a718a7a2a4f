use crate::decimal::{decimal_of, parse_decimal, round_to_u64, rounded, Decimal};
use crate::compass::compass_code;
use crate::fields::{
    keep_compass_code, outcome_view, settle, settled, valid_reading,
};
use crate::measurements::{absent, text_view, DownloadError, Measurements, Reading};
use crate::pattern::{
    all_captures, all_captures_of, all_groups_view, decode_latin9, first_captures,
    first_captures_of, groups_view, latin9_text_of,
};
use crate::scan::{
    first_where, is_text, last_where, lemma_first_where_is, lemma_first_where_none,
    lemma_last_where_is, lemma_last_where_none,
};
use crate::text::{
    chars_of, parse_u64, split_on, split_on_exec, string_of, west, west_exec, texts, trim_str, trimmed, u64_of,
};
use vstd::prelude::*;

verus! {

/// The prefix of the station pages of Meteoclimatic, a network of amateur stations.
pub const BASE_URL: &'static str = "https://www.meteoclimatic.net/";

/// Reads a Meteoclimatic station page. The page is ISO-8859-15 text with no stable
/// table: its titles and readings are picked out by their CSS classes and paired
/// in order.
pub struct MeteoclimaticDownloader {}

/// Picks out the field titles.
pub const TITLE_PATTERN: &'static str = "class=\"titolet\" *>(?<title>[^<]+)";

/// Picks out the readings.
pub const READING_PATTERN: &'static str = "class=\"dadesactuals\" *>(?<reading>[^<]+)";

/// Splits a wind reading into direction and speed.
pub const WIND_PATTERN: &'static str = "(.+)&nbsp;&nbsp;(.+)";

/// Picks out the time of the last update, `DD-MM-YYYY HH:MM` in UTC.
pub const STAMP_PATTERN: &'static str =
    "\u{da}ltima actualizaci\u{f3}n ?(\\d\\d-\\d\\d-\\d\\d\\d\\d \\d\\d:\\d\\d) ?UTC</td>";

/// The start of the pattern of a number followed by its unit.
pub const NUMBER_PATTERN: &'static str = "([-\\.\\d]+) *";

/// The trimmed first group of each match that has it.
pub open spec fn group_texts(caps: Seq<Seq<Option<Seq<char>>>>) -> Seq<Seq<char>>
    decreases caps.len(),
{
    if caps.len() == 0 {
        Seq::empty()
    } else {
        let g = caps.last();
        let rest = group_texts(caps.drop_last());
        if g.len() > 1 && g[1] is Some {
            rest.push(trimmed(g[1]->0))
        } else {
            rest
        }
    }
}

/// Whether title `i` is `key`.
pub open spec fn titled(keys: Seq<Seq<char>>, key: Seq<char>) -> spec_fn(int) -> bool {
    |i: int| keys[i] == key
}

/// The reading paired with `key`: titles and readings are paired in order, up to
/// the shorter list, and a repeated title keeps its last reading.
pub open spec fn lookup(keys: Seq<Seq<char>>, values: Seq<Seq<char>>, key: Seq<char>) -> Option<
    Seq<char>,
> {
    let n = if keys.len() < values.len() {
        keys.len()
    } else {
        values.len()
    };
    match last_where(n as int, titled(keys, key)) {
        Some(i) => Some(values[i]),
        None => None,
    }
}

/// The number in front of `unit` in a reading, as the first group of
/// `([-\.\d]+) *` followed by the unit.
pub open spec fn number_in(val: Seq<char>, unit: Seq<char>) -> Option<Seq<char>> {
    match first_captures_of(NUMBER_PATTERN@ + unit, val) {
        Some(g) => if g.len() > 1 && g[1] is Some {
            Some(g[1]->0)
        } else {
            None
        },
        None => None,
    }
}

/// A decimal field: absent if there is no such title, a failure if its reading
/// does not hold a number.
pub open spec fn decimal_field(v: Option<Seq<char>>, unit: Seq<char>) -> Result<
    Option<Decimal>,
    DownloadError,
> {
    match v {
        None => Ok(None),
        Some(val) => match number_in(val, unit) {
            None => Err(DownloadError::Parse),
            Some(x) => match decimal_of(x) {
                None => Err(DownloadError::Parse),
                Some(d) => Ok(Some(d)),
            },
        },
    }
}

/// A whole-number field: absent if there is no such title, a failure if its
/// reading does not hold an unsigned integer.
pub open spec fn count_field(v: Option<Seq<char>>, unit: Seq<char>) -> Result<
    Option<u64>,
    DownloadError,
> {
    match v {
        None => Ok(None),
        Some(val) => match number_in(val, unit) {
            None => Err(DownloadError::Parse),
            Some(x) => match u64_of(x) {
                None => Err(DownloadError::Parse),
                Some(n) => Ok(Some(n)),
            },
        },
    }
}

/// A humidity field: as [`count_field`], and a failure when the reported value
/// is above 100 percent.
pub open spec fn percent_field(v: Option<Seq<char>>, unit: Seq<char>) -> Result<
    Option<u64>,
    DownloadError,
> {
    match count_field(v, unit) {
        Ok(Some(n)) => if n <= 100 {
            Ok(Some(n))
        } else {
            Err(DownloadError::Parse)
        },
        other => other,
    }
}

/// A precipitation field: as [`decimal_field`], and a failure when the reported
/// amount is negative.
pub open spec fn amount_field(v: Option<Seq<char>>, unit: Seq<char>) -> Result<
    Option<Decimal>,
    DownloadError,
> {
    match decimal_field(v, unit) {
        Ok(Some(d)) => if d.mantissa >= 0 {
            Ok(Some(d))
        } else {
            Err(DownloadError::Parse)
        },
        other => other,
    }
}

/// The wind field: direction and rounded speed, absent if there is no such title.
pub open spec fn wind_field(v: Option<Seq<char>>) -> Result<
    (Option<Seq<char>>, Option<u64>),
    DownloadError,
> {
    match v {
        None => Ok((None, None)),
        Some(val) => match first_captures_of(WIND_PATTERN@, val) {
            None => Err(DownloadError::Parse),
            Some(g) => if g.len() > 2 && g[1] is Some && g[2] is Some {
                match number_in(trimmed(g[2]->0), "km/h"@) {
                    None => Err(DownloadError::Parse),
                    Some(x) => match decimal_of(x) {
                        None => Err(DownloadError::Parse),
                        Some(d) => Ok(
                            (compass_code(west(trimmed(g[1]->0))), Some(rounded(d) as u64)),
                        ),
                    },
                }
            } else {
                Err(DownloadError::Parse)
            },
        },
    }
}

/// The parts joined with `c` between them.
pub open spec fn join_on(parts: Seq<Seq<char>>, c: char) -> Seq<char>
    decreases parts.len(),
{
    if parts.len() == 0 {
        Seq::empty()
    } else if parts.len() == 1 {
        parts[0]
    } else {
        join_on(parts.drop_last(), c).push(c) + parts.last()
    }
}

/// `DD-MM-YYYY HH:MM` rewritten as `YYYY-MM-DD HH:MM`: the `-`-separated parts
/// before the first space in reverse order, then the rest.
pub open spec fn reordered(s: Seq<char>) -> Option<Seq<char>> {
    match first_where(s.len() as int, |i: int| s[i] == ' ') {
        Some(p) => Some(
            join_on(split_on(s.subrange(0, p), '-').reverse(), '-') + seq![' '] + s.subrange(
                p + 1,
                s.len() as int,
            ),
        ),
        None => None,
    }
}

/// The time of the last update on a page.
pub open spec fn stamp_of(text: Seq<char>) -> Option<Seq<char>> {
    match first_captures_of(STAMP_PATTERN@, text) {
        Some(g) => if g.len() > 1 && g[1] is Some {
            reordered(g[1]->0)
        } else {
            None
        },
        None => None,
    }
}

/// The reading that fetched page bytes give: decoded from ISO-8859-15, unless
/// the page is too large to decode.
pub open spec fn body_reading(body: Seq<u8>) -> Result<Reading, DownloadError> {
    if body.len() <= usize::MAX / 4 {
        page_reading(latin9_text_of(body))
    } else {
        Err(DownloadError::Format)
    }
}

/// The reading that a station page's text gives.
pub open spec fn page_reading(text: Seq<char>) -> Result<Reading, DownloadError> {
    let keys = group_texts(all_captures_of(TITLE_PATTERN@, text));
    let values = group_texts(all_captures_of(READING_PATTERN@, text));
    let temperature = decimal_field(lookup(keys, values, "Temperatura"@), "\u{ba}C"@);
    let humidity = percent_field(lookup(keys, values, "Humedad"@), "%"@);
    let pressure = decimal_field(lookup(keys, values, "Presi\u{f3}n"@), "hPa"@);
    let precipitation = amount_field(lookup(keys, values, "Precip."@), "mm"@);
    let wind = wind_field(lookup(keys, values, "Viento"@));
    if temperature is Err || humidity is Err || pressure is Err || precipitation is Err
        || wind is Err {
        Err(DownloadError::Parse)
    } else {
        Ok(
            Reading {
                update_time: stamp_of(text),
                humidity: humidity->Ok_0,
                precipitation: precipitation->Ok_0,
                pressure: match pressure->Ok_0 {
                    Some(d) => Some(rounded(d) as u64),
                    None => None,
                },
                temperature: temperature->Ok_0,
                wind_direction: wind->Ok_0.0,
                wind_speed: wind->Ok_0.1,
                gusts_speed: None,
            },
        )
    }
}

fn group_texts_exec(caps: &Vec<Vec<Option<String>>>) -> (r: Vec<Vec<char>>)
    ensures
        texts(r@) == group_texts(all_groups_view(caps@)),
{
    let mut r: Vec<Vec<char>> = Vec::new();
    let mut i: usize = 0;
    while i < caps.len()
        invariant
            i <= caps@.len(),
            texts(r@) == group_texts(all_groups_view(caps@).subrange(0, i as int)),
        decreases caps@.len() - i,
    {
        let g = &caps[i];
        let ghost all = all_groups_view(caps@);
        assert(all.subrange(0, i + 1).drop_last() =~= all.subrange(0, i as int));
        assert(all.subrange(0, i + 1).last() == groups_view(g@));
        if g.len() > 1 {
            match &g[1] {
                Some(t) => {
                    let v = trim_str(t.as_str());
                    let ghost before = r@;
                    r.push(v);
                    assert(texts(r@) =~= texts(before).push(v@));
                },
                None => {},
            }
        }
        i = i + 1;
    }
    assert(all_groups_view(caps@).subrange(0, i as int) =~= all_groups_view(caps@));
    r
}

fn last_titled(keys: &Vec<Vec<char>>, n: usize, key: &str) -> (r: Option<usize>)
    requires
        n <= keys@.len(),
    ensures
        r matches Some(i) ==> i < n && last_where(n as int, titled(texts(keys@), key@)) == Some(
            i as int,
        ),
        r is None ==> last_where(n as int, titled(texts(keys@), key@)) is None,
{
    let ghost p = titled(texts(keys@), key@);
    let mut i: usize = n;
    while i > 0
        invariant
            i <= n <= keys@.len(),
            p == titled(texts(keys@), key@),
            forall|j: int| i <= j < n ==> !#[trigger] p(j),
        decreases i,
    {
        let hit = is_text(&keys[i - 1], key);
        assert(texts(keys@)[i - 1] == keys@[i - 1]@);
        if hit {
            proof {
                lemma_last_where_is(n as int, p, i - 1);
            }
            return Some(i - 1);
        }
        i = i - 1;
    }
    proof {
        lemma_last_where_none(n as int, p);
    }
    None
}

fn lookup_exec(keys: &Vec<Vec<char>>, values: &Vec<Vec<char>>, key: &str) -> (r: Option<
    Vec<char>,
>)
    ensures
        text_opt(r) == lookup(texts(keys@), texts(values@), key@),
{
    let n = if keys.len() < values.len() {
        keys.len()
    } else {
        values.len()
    };
    assert(texts(keys@).len() == keys@.len() && texts(values@).len() == values@.len());
    match last_titled(keys, n, key) {
        Some(i) => {
            let v = copy_text(&values[i]);
            assert(texts(values@)[i as int] == values@[i as int]@);
            Some(v)
        },
        None => None,
    }
}

fn copy_text(v: &Vec<char>) -> (r: Vec<char>)
    ensures
        r@ == v@,
{
    let mut r: Vec<char> = Vec::new();
    let mut i: usize = 0;
    while i < v.len()
        invariant
            i <= v@.len(),
            r@ == v@.subrange(0, i as int),
        decreases v@.len() - i,
    {
        r.push(v[i]);
        i = i + 1;
        assert(r@ =~= v@.subrange(0, i as int));
    }
    assert(v@.subrange(0, i as int) =~= v@);
    r
}

pub open spec fn text_opt(v: Option<Vec<char>>) -> Option<Seq<char>> {
    match v {
        Some(t) => Some(t@),
        None => None,
    }
}

fn parse_reading(val: &Vec<char>, unit: &str) -> (r: Option<Vec<char>>)
    ensures
        text_opt(r) == number_in(val@, unit@),
{
    let mut pattern = NUMBER_PATTERN.to_string();
    pattern.append(unit);
    let text = string_of(val);
    match first_captures(pattern.as_str(), text.as_str()) {
        Some(g) => {
            if g.len() > 1 {
                match &g[1] {
                    Some(t) => Some(chars_of(t.as_str())),
                    None => None,
                }
            } else {
                None
            }
        },
        None => None,
    }
}

fn decimal_field_exec(v: &Option<Vec<char>>, unit: &str) -> (r: Result<
    Option<Decimal>,
    DownloadError,
>)
    ensures
        r == decimal_field(text_opt(*v), unit@),
        r matches Ok(Some(d)) ==> d.wf(),
{
    match v {
        None => Ok(None),
        Some(val) => match parse_reading(val, unit) {
            None => Err(DownloadError::Parse),
            Some(x) => match parse_decimal(&x) {
                None => Err(DownloadError::Parse),
                Some(d) => Ok(Some(d)),
            },
        },
    }
}

fn count_field_exec(v: &Option<Vec<char>>, unit: &str) -> (r: Result<Option<u64>, DownloadError>)
    ensures
        r == count_field(text_opt(*v), unit@),
{
    match v {
        None => Ok(None),
        Some(val) => match parse_reading(val, unit) {
            None => Err(DownloadError::Parse),
            Some(x) => match parse_u64(&x) {
                None => Err(DownloadError::Parse),
                Some(n) => Ok(Some(n)),
            },
        },
    }
}

fn wind_field_exec(v: &Option<Vec<char>>) -> (r: Result<(Option<String>, Option<u64>), DownloadError>)
    ensures
        match r {
            Ok(w) => wind_field(text_opt(*v)) == Ok::<_, DownloadError>((text_view(w.0), w.1)),
            Err(e) => wind_field(text_opt(*v)) == Err::<(Option<Seq<char>>, Option<u64>), _>(e),
        },
{
    match v {
        None => Ok((None, None)),
        Some(val) => {
            let text = string_of(val);
            match first_captures(WIND_PATTERN, text.as_str()) {
                None => Err(DownloadError::Parse),
                Some(g) => {
                    if g.len() > 2 {
                        match (&g[1], &g[2]) {
                            (Some(a), Some(b)) => {
                                let speed_text = trim_str(b.as_str());
                                match parse_reading(&speed_text, "km/h") {
                                    None => Err(DownloadError::Parse),
                                    Some(x) => match parse_decimal(&x) {
                                        None => Err(DownloadError::Parse),
                                        Some(d) => {
                                            let dir = west_exec(&trim_str(a.as_str()));
                                            Ok((keep_compass_code(&dir), Some(round_to_u64(d))))
                                        },
                                    },
                                }
                            },
                            _ => Err(DownloadError::Parse),
                        }
                    } else {
                        Err(DownloadError::Parse)
                    }
                },
            }
        },
    }
}

/// The parts in reverse order, joined with `c`.
fn join_reversed(parts: &Vec<Vec<char>>, c: char) -> (r: Vec<char>)
    requires
        parts@.len() >= 1,
    ensures
        r@ == join_on(texts(parts@).reverse(), c),
{
    let n = parts.len();
    let ghost p = texts(parts@);
    let mut r = parts[n - 1].clone();
    let mut i: usize = n - 1;
    assert(p.subrange(n - 1, n as int).reverse() =~= seq![p[n - 1]]);
    while i > 0
        invariant
            i < n == p.len(),
            p == texts(parts@),
            r@ == join_on(p.subrange(i as int, n as int).reverse(), c),
        decreases i,
    {
        let ghost before = r@;
        let ghost q = p.subrange(i - 1, n as int).reverse();
        assert(q.drop_last() =~= p.subrange(i as int, n as int).reverse());
        assert(q.last() == p[i - 1]);
        r.push(c);
        let piece = &parts[i - 1];
        let mut k: usize = 0;
        let ghost mid = r@;
        while k < piece.len()
            invariant
                k <= piece@.len(),
                r@ == mid + piece@.subrange(0, k as int),
            decreases piece@.len() - k,
        {
            r.push(piece[k]);
            k = k + 1;
            assert(r@ =~= mid + piece@.subrange(0, k as int));
        }
        assert(piece@.subrange(0, k as int) =~= piece@);
        i = i - 1;
    }
    assert(p.subrange(0, n as int) =~= p);
    r
}

fn reordered_exec(s: &Vec<char>) -> (r: Option<Vec<char>>)
    ensures
        text_opt(r) == reordered(s@),
{
    let ghost pr = |i: int| s@[i] == ' ';
    let mut i: usize = 0;
    while i < s.len()
        invariant
            i <= s@.len(),
            pr == (|i: int| s@[i] == ' '),
            forall|j: int| 0 <= j < i ==> !#[trigger] pr(j),
        decreases s@.len() - i,
    {
        if s[i] == ' ' {
            proof {
                lemma_first_where_is(s@.len() as int, pr, i as int);
            }
            let mut date: Vec<char> = Vec::new();
            let mut k: usize = 0;
            while k < i
                invariant
                    k <= i < s@.len(),
                    date@ == s@.subrange(0, k as int),
                decreases i - k,
            {
                date.push(s[k]);
                k = k + 1;
                assert(date@ =~= s@.subrange(0, k as int));
            }
            let parts = split_on_exec(&date, '-');
            let mut out = join_reversed(&parts, '-');
            let ghost head = out@;
            out.push(' ');
            let mut m: usize = i + 1;
            let ghost mid = out@;
            while m < s.len()
                invariant
                    i + 1 <= m <= s@.len(),
                    out@ == mid + s@.subrange(i + 1, m as int),
                decreases s@.len() - m,
            {
                out.push(s[m]);
                m = m + 1;
                assert(out@ =~= mid + s@.subrange(i + 1, m as int));
            }
            assert(out@ =~= head + seq![' '] + s@.subrange(i + 1, s@.len() as int));
            return Some(out);
        }
        i = i + 1;
    }
    proof {
        lemma_first_where_none(s@.len() as int, pr);
    }
    None
}

fn stamp_exec(text: &str) -> (r: Option<String>)
    ensures
        text_view(r) == stamp_of(text@),
{
    match first_captures(STAMP_PATTERN, text) {
        Some(g) => {
            if g.len() > 1 {
                match &g[1] {
                    Some(t) => match reordered_exec(&chars_of(t.as_str())) {
                        Some(v) => Some(string_of(&v)),
                        None => None,
                    },
                    None => None,
                }
            } else {
                None
            }
        },
        None => None,
    }
}

impl MeteoclimaticDownloader {
    /// The prefix of the URLs this collector claims.
    pub fn base_url(&self) -> (r: String)
        ensures
            r@ == BASE_URL@,
    {
        BASE_URL.to_string()
    }

    /// The address to fetch for a station: its page itself.
    pub fn request_url(&self, url: &str) -> (r: String)
        ensures
            r@ == url@,
    {
        url.to_string()
    }

    /// The reading of a station page's text, as [`page_reading`] states it.
    pub fn reading_from_page(text: &str) -> (r: Result<Measurements, DownloadError>)
        ensures
            outcome_view(r) == page_reading(text@),
            r matches Ok(m) ==> valid_reading(m@),
    {
        let keys = group_texts_exec(&all_captures(TITLE_PATTERN, text));
        let values = group_texts_exec(&all_captures(READING_PATTERN, text));
        let temperature = decimal_field_exec(&lookup_exec(&keys, &values, "Temperatura"), "\u{ba}C");
        let humidity = match count_field_exec(&lookup_exec(&keys, &values, "Humedad"), "%") {
            Ok(Some(n)) => if n <= 100 {
                Ok(Some(n))
            } else {
                Err(DownloadError::Parse)
            },
            other => other,
        };
        let pressure = decimal_field_exec(&lookup_exec(&keys, &values, "Presi\u{f3}n"), "hPa");
        let precipitation = match decimal_field_exec(&lookup_exec(&keys, &values, "Precip."), "mm") {
            Ok(Some(d)) => if d.mantissa >= 0 {
                Ok(Some(d))
            } else {
                Err(DownloadError::Parse)
            },
            other => other,
        };
        let wind = wind_field_exec(&lookup_exec(&keys, &values, "Viento"));
        match (temperature, humidity, pressure, precipitation, wind) {
            (Ok(t), Ok(h), Ok(p), Ok(pr), Ok((direction, speed))) => Ok(
                Measurements {
                    update_time: stamp_exec(text),
                    humidity: h,
                    precipitation: pr,
                    pressure: match p {
                        Some(d) => Some(round_to_u64(d)),
                        None => None,
                    },
                    temperature: t,
                    wind_direction: direction,
                    wind_speed: speed,
                    gusts_speed: None,
                },
            ),
            _ => Err(DownloadError::Parse),
        }
    }

    /// Reads a fetched station page, decoded from ISO-8859-15.
    pub fn try_download(&self, body: &[u8]) -> (r: Result<Measurements, DownloadError>)
        ensures
            outcome_view(r) == body_reading(body@),
            r matches Ok(m) ==> valid_reading(m@),
    {
        if body.len() > usize::MAX / 4 {
            return Err(DownloadError::Format);
        }
        let text = decode_latin9(body);
        Self::reading_from_page(text.as_str())
    }

    /// The total form of [`MeteoclimaticDownloader::try_download`]: a failed fetch or
    /// an unreadable page gives the all-absent record.
    pub fn download(&self, fetched: Result<Vec<u8>, DownloadError>) -> (m: Measurements)
        ensures
            m@ == match fetched {
                Ok(b) => settled(body_reading(b@)),
                Err(_) => absent(),
            },
            valid_reading(m@),
    {
        match fetched {
            Ok(body) => settle(self.try_download(body.as_slice())),
            Err(e) => settle(Err(e)),
        }
    }
}

} // verus!
