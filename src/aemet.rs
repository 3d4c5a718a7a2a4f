use crate::compass::compass_code;
use crate::fields::{
    amount, header_views, keep_amount, keep_compass_code, keep_percent, opt_decimal,
    opt_rounded, opt_text, opt_time_text, opt_u64, outcome_view, percent, read_decimal,
    read_rounded, read_u64, row_views, settle, settled, time_string, valid_reading,
};
use crate::html::{
    attribute, cell_texts, cells_of, decode_utf8_lossy, match_count_of, parse_page, root,
    select_within, utf8_lossy_of, attribute_of, Page, Step,
};
use crate::measurements::{absent, text_view, DownloadError, Measurements, Reading};
use crate::scan::{
    field, field_exec, first_where, lemma_first_where_is, lemma_first_where_none, strings,
    trim_all, trim_cells,
};
use crate::text::{string_of, texts, trim_str, trimmed, west, west_exec};
use crate::timestamp::{madrid_to_utc, madrid_to_utc_of, naive_time_of, parse_naive};
use vstd::prelude::*;

verus! {

/// The prefix of the station pages of AEMET, the Spanish state weather agency.
pub const BASE_URL: &'static str = "https://www.aemet.es/";

/// Reads the hourly observation table of an AEMET station page. Its stations are
/// all in Spain, so its local times are read in the Europe/Madrid zone.
pub struct AemetDownloader {}

/// The title of the timestamp column.
pub const STAMP_TITLE: &'static str = "Fecha y hora oficial";

/// How the timestamp column writes a local time.
pub const STAMP_FORMAT: &'static str = "%d/%m/%Y %H:%M";

/// A header cell's field name: its `title` attribute, else its `abbr` attribute, trimmed.
pub open spec fn header_name(h: (Option<Seq<char>>, Option<Seq<char>>)) -> Option<Seq<char>> {
    match h.0 {
        Some(t) => Some(trimmed(t)),
        None => match h.1 {
            Some(a) => Some(trimmed(a)),
            None => None,
        },
    }
}

pub open spec fn all_named(headers: Seq<(Option<Seq<char>>, Option<Seq<char>>)>) -> bool {
    forall|i: int| 0 <= i < headers.len() ==> #[trigger] header_name(headers[i]) is Some
}

pub open spec fn titles_of(headers: Seq<(Option<Seq<char>>, Option<Seq<char>>)>) -> Seq<Seq<char>> {
    headers.map_values(|h: (Option<Seq<char>>, Option<Seq<char>>)| header_name(h)->0)
}

/// The trimmed cells of row `j`.
pub open spec fn row_cells(rows: Seq<Seq<Seq<char>>>, j: int) -> Seq<Seq<char>> {
    trim_all(rows[j])
}

/// A row is usable unless every cell after the timestamp is empty.
pub open spec fn usable(cells: Seq<Seq<char>>) -> bool {
    exists|k: int| 1 <= k < cells.len() && #[trigger] cells[k].len() > 0
}

/// The most recent usable row: the first one from the top.
pub open spec fn latest_row(rows: Seq<Seq<Seq<char>>>) -> Option<int> {
    first_where(rows.len() as int, |j: int| usable(row_cells(rows, j)))
}

pub open spec fn ascii_upper(c: char) -> char {
    if 'a' <= c && c <= 'z' {
        ((c as u32) - 32) as char
    } else {
        c
    }
}

/// The compass code of a wind text such as `Dirección-Nor-Este`: the first
/// character, upper-cased, of each `-`-separated part after the first, where that
/// character is ASCII.
pub open spec fn dash_initials(s: Seq<char>) -> Seq<char>
    decreases s.len(),
{
    if s.len() < 2 {
        Seq::empty()
    } else {
        let c = s.last();
        let b = s[s.len() - 2];
        if b == '-' && c != '-' && (c as u32) < 128 {
            dash_initials(s.drop_last()).push(ascii_upper(c))
        } else {
            dash_initials(s.drop_last())
        }
    }
}

/// The wind direction of a wind text: its initials with the Spanish `O` (oeste)
/// as `W`, kept only if that is one of the sixteen compass codes.
pub open spec fn opt_initials(f: Option<Seq<char>>) -> Option<Seq<char>> {
    match f {
        Some(t) => compass_code(west(dash_initials(t))),
        None => None,
    }
}

/// The reading that an observation table gives: `headers` holds the `title` and
/// `abbr` attributes of each header cell, `rows` the texts of the cells of each
/// row below the header.
pub open spec fn table_reading(
    headers: Seq<(Option<Seq<char>>, Option<Seq<char>>)>,
    rows: Seq<Seq<Seq<char>>>,
) -> Result<Reading, DownloadError> {
    if !all_named(headers) {
        Err(DownloadError::Format)
    } else {
        let titles = titles_of(headers);
        match latest_row(rows) {
            None => Err(DownloadError::Format),
            Some(j) => {
                let cells = row_cells(rows, j);
                match field(titles, cells, STAMP_TITLE@) {
                    None => Err(DownloadError::Format),
                    Some(stamp) => match naive_time_of(stamp, STAMP_FORMAT@) {
                        None => Err(DownloadError::Parse),
                        Some(local) => Ok(
                            Reading {
                                update_time: opt_time_text(madrid_to_utc_of(local)),
                                humidity: percent(opt_u64(field(titles, cells, "Humidity (%)"@))),
                                precipitation: amount(
                                    opt_decimal(field(titles, cells, "Precipitation (mm)"@)),
                                ),
                                pressure: opt_rounded(field(titles, cells, "Pressure (hPa)"@)),
                                temperature: opt_decimal(
                                    field(titles, cells, "Temperature (\u{b0}C)"@),
                                ),
                                wind_direction: opt_initials(
                                    field(titles, cells, "Wind direction"@),
                                ),
                                wind_speed: opt_u64(field(titles, cells, "Wind speed (km/h)"@)),
                                gusts_speed: opt_u64(field(titles, cells, "Gust (km/h)"@)),
                            },
                        ),
                    },
                }
            },
        }
    }
}

fn initials(s: &Vec<char>) -> (r: Vec<char>)
    ensures
        r@ == dash_initials(s@),
{
    let mut r: Vec<char> = Vec::new();
    let mut i: usize = 1;
    if s.len() < 2 {
        assert(dash_initials(s@) == Seq::<char>::empty());
        return r;
    }
    assert(dash_initials(s@.subrange(0, 1)) == Seq::<char>::empty());
    while i < s.len()
        invariant
            1 <= i <= s@.len(),
            r@ == dash_initials(s@.subrange(0, i as int)),
        decreases s@.len() - i,
    {
        let c = s[i];
        let b = s[i - 1];
        assert(s@.subrange(0, i + 1).drop_last() =~= s@.subrange(0, i as int));
        if b == '-' && c != '-' && (c as u32) < 128 {
            let u = if 'a' <= c && c <= 'z' {
                char_from_ascii((c as u32) - 32)
            } else {
                c
            };
            r.push(u);
        }
        i = i + 1;
    }
    assert(s@.subrange(0, s@.len() as int) =~= s@);
    r
}

fn char_from_ascii(v: u32) -> (c: char)
    requires
        v < 128,
    ensures
        c == v as char,
{
    let b = v as u8;
    b as char
}

fn opt_initials_exec(f: &Option<Vec<char>>) -> (r: Option<String>)
    ensures
        crate::measurements::text_view(r) == opt_initials(opt_text(*f)),
{
    match f {
        Some(t) => keep_compass_code(&west_exec(&initials(t))),
        None => None,
    }
}

/// The field names of the header cells, or `None` if one has neither attribute.
fn header_titles(headers: &Vec<(Option<String>, Option<String>)>) -> (r: Option<Vec<Vec<char>>>)
    ensures
        r is None <==> !all_named(header_views(headers@)),
        r matches Some(t) ==> texts(t@) == titles_of(header_views(headers@)),
{
    let mut titles: Vec<Vec<char>> = Vec::new();
    let mut i: usize = 0;
    while i < headers.len()
        invariant
            i <= headers@.len(),
            forall|k: int| 0 <= k < i ==> #[trigger] header_name(header_views(headers@)[k]) is Some,
            texts(titles@) == titles_of(header_views(headers@)).subrange(0, i as int),
        decreases headers@.len() - i,
    {
        let h = &headers[i];
        let name = match &h.0 {
            Some(t) => trim_str(t.as_str()),
            None => match &h.1 {
                Some(a) => trim_str(a.as_str()),
                None => {
                    return None;
                },
            },
        };
        assert(header_views(headers@)[i as int] == (text_view(h.0), text_view(h.1)));
        assert(header_name(header_views(headers@)[i as int]) == Some(name@));
        let ghost before = titles@;
        titles.push(name);
        assert(texts(titles@) =~= texts(before).push(name@));
        i = i + 1;
        assert(texts(titles@) =~= titles_of(header_views(headers@)).subrange(0, i as int));
    }
    assert(titles_of(header_views(headers@)).subrange(0, i as int) =~= titles_of(
        header_views(headers@),
    ));
    Some(titles)
}

fn is_usable(cells: &Vec<Vec<char>>) -> (r: bool)
    ensures
        r == usable(texts(cells@)),
{
    let mut k: usize = 1;
    while k < cells.len()
        invariant
            1 <= k,
            forall|m: int| 1 <= m < k && m < cells@.len() ==> #[trigger] texts(cells@)[m].len()
                == 0,
        decreases cells@.len() - k,
    {
        if cells[k].len() > 0 {
            assert(texts(cells@)[k as int].len() > 0);
            return true;
        }
        k = k + 1;
    }
    false
}

/// The trimmed cells of the latest usable row.
fn first_usable_row(rows: &Vec<Vec<String>>) -> (r: Option<Vec<Vec<char>>>)
    ensures
        r is None ==> latest_row(row_views(rows@)) is None,
        r matches Some(c) ==> latest_row(row_views(rows@)) matches Some(j) && texts(c@)
            == row_cells(row_views(rows@), j),
{
    let ghost p = |j: int| usable(row_cells(row_views(rows@), j));
    let mut j: usize = 0;
    while j < rows.len()
        invariant
            j <= rows@.len(),
            p == (|j: int| usable(row_cells(row_views(rows@), j))),
            forall|k: int| 0 <= k < j ==> !#[trigger] p(k),
        decreases rows@.len() - j,
    {
        let cells = trim_cells(&rows[j]);
        assert(row_views(rows@)[j as int] == strings(rows@[j as int]@));
        if is_usable(&cells) {
            proof {
                lemma_first_where_is(rows@.len() as int, p, j as int);
            }
            return Some(cells);
        }
        j = j + 1;
    }
    proof {
        lemma_first_where_none(rows@.len() as int, p);
    }
    None
}

/// Selects the observation table.
pub const TABLE_SELECTOR: &'static str = "table#table";

/// The `title` and `abbr` attributes of header cell `k` of the header row at `h`.
pub open spec fn header_at(text: Seq<char>, h: Seq<Step>, k: int) -> (
    Option<Seq<char>>,
    Option<Seq<char>>,
) {
    let c = h.push(("th"@, k as nat));
    (attribute_of(text, c, "title"@), attribute_of(text, c, "abbr"@))
}

/// What a station page holds of its observation table: the first `table#table`,
/// the header attributes of its first row, and the `td` texts of each row below;
/// `None` without the table or without rows.
pub open spec fn page_table(text: Seq<char>) -> Option<
    (Seq<(Option<Seq<char>>, Option<Seq<char>>)>, Seq<Seq<Seq<char>>>),
> {
    let top = Seq::<Step>::empty();
    let t = top.push((TABLE_SELECTOR@, 0nat));
    let n = match_count_of(text, t, "tr"@);
    if match_count_of(text, top, TABLE_SELECTOR@) == 0 || n == 0 {
        None
    } else {
        let h = t.push(("tr"@, 0nat));
        Some(
            (
                Seq::new(match_count_of(text, h, "th"@), |k: int| header_at(text, h, k)),
                Seq::new(
                    (n - 1) as nat,
                    |j: int| cells_of(text, t.push(("tr"@, (j + 1) as nat)), "td"@),
                ),
            ),
        )
    }
}

/// The reading that a station page's text gives.
pub open spec fn page_reading(text: Seq<char>) -> Result<Reading, DownloadError> {
    match page_table(text) {
        Some((headers, rows)) => table_reading(headers, rows),
        None => Err(DownloadError::Format),
    }
}

/// The header attributes and the row texts of the observation table.
fn read_table(page: &Page) -> (r: Option<(Vec<(Option<String>, Option<String>)>, Vec<Vec<String>>)>)
    ensures
        match r {
            Some((h, rows)) => page_table(page.source()) == Some(
                (header_views(h@), row_views(rows@)),
            ),
            None => page_table(page.source()) is None,
        },
{
    let ghost text = page.source();
    let top = root(page);
    let tables = select_within(&top, TABLE_SELECTOR);
    if tables.len() == 0 {
        return None;
    }
    let ghost t = Seq::<Step>::empty().push((TABLE_SELECTOR@, 0nat));
    assert(tables@[0].path() == t);
    let rows = select_within(&tables[0], "tr");
    if rows.len() == 0 {
        return None;
    }
    let ghost h = t.push(("tr"@, 0nat));
    assert(rows@[0].path() == h);
    let ths = select_within(&rows[0], "th");
    let ghost want_h = Seq::new(match_count_of(text, h, "th"@), |k: int| header_at(text, h, k));
    let mut headers: Vec<(Option<String>, Option<String>)> = Vec::new();
    let mut i: usize = 0;
    while i < ths.len()
        invariant
            i <= ths@.len() == want_h.len(),
            want_h == Seq::new(match_count_of(text, h, "th"@), |k: int| header_at(text, h, k)),
            forall|k: int|
                0 <= k < ths@.len() ==> (#[trigger] ths@[k]).source() == text && ths@[k].path()
                    == h.push(("th"@, k as nat)),
            header_views(headers@) == want_h.subrange(0, i as int),
        decreases ths@.len() - i,
    {
        let title = attribute(&ths[i], "title");
        let abbr = attribute(&ths[i], "abbr");
        assert(ths@[i as int].source() == text);
        let ghost before = headers@;
        headers.push((title, abbr));
        assert(header_views(headers@) =~= header_views(before).push(
            (text_view(title), text_view(abbr)),
        ));
        i = i + 1;
        assert(header_views(headers@) =~= want_h.subrange(0, i as int));
    }
    assert(want_h.subrange(0, i as int) =~= want_h);
    let n = rows.len();
    let ghost want_r = Seq::new(
        (n - 1) as nat,
        |j: int| cells_of(text, t.push(("tr"@, (j + 1) as nat)), "td"@),
    );
    let mut body: Vec<Vec<String>> = Vec::new();
    let mut k: usize = 1;
    while k < n
        invariant
            1 <= k <= n == rows@.len(),
            want_r == Seq::new(
                (n - 1) as nat,
                |j: int| cells_of(text, t.push(("tr"@, (j + 1) as nat)), "td"@),
            ),
            forall|j: int|
                0 <= j < rows@.len() ==> (#[trigger] rows@[j]).source() == text && rows@[j].path()
                    == t.push(("tr"@, j as nat)),
            row_views(body@) == want_r.subrange(0, k - 1),
        decreases n - k,
    {
        let cells = cell_texts(&rows[k], "td");
        assert(rows@[k as int].source() == text);
        let ghost before = body@;
        body.push(cells);
        assert(row_views(body@) =~= row_views(before).push(strings(cells@)));
        k = k + 1;
        assert(row_views(body@) =~= want_r.subrange(0, k - 1));
    }
    assert(want_r.subrange(0, n - 1) =~= want_r);
    Some((headers, body))
}

impl AemetDownloader {
    /// Reads a fetched station page, as [`page_reading`] states it of the page's
    /// text.
    pub fn try_download(&self, body: &[u8]) -> (r: Result<Measurements, DownloadError>)
        ensures
            outcome_view(r) == page_reading(utf8_lossy_of(body@)),
            r matches Ok(m) ==> valid_reading(m@),
    {
        let text = decode_utf8_lossy(body);
        let page = parse_page(text.as_str());
        match read_table(&page) {
            Some((headers, rows)) => Self::reading_from_table(&headers, &rows),
            None => Err(DownloadError::Format),
        }
    }

    /// The total form of [`AemetDownloader::try_download`]: the reading of the
    /// fetched page, or the all-absent record when the fetch or the reading failed.
    pub fn download(&self, fetched: Result<Vec<u8>, DownloadError>) -> (m: Measurements)
        ensures
            m@ == match fetched {
                Ok(b) => settled(page_reading(utf8_lossy_of(b@))),
                Err(_) => absent(),
            },
            valid_reading(m@),
    {
        match fetched {
            Ok(body) => settle(self.try_download(body.as_slice())),
            Err(e) => settle(Err(e)),
        }
    }

    /// The prefix of the URLs this collector claims.
    pub fn base_url(&self) -> (r: String)
        ensures
            r@ == BASE_URL@,
    {
        BASE_URL.to_string()
    }

    /// The address of a station's detailed observation table.
    pub fn request_url(&self, url: &str) -> (r: String)
        ensures
            r@ == url@ + "&w=0&datos=det"@,
    {
        let mut r = url.to_string();
        r.append("&w=0&datos=det");
        r
    }

    /// The reading of an observation table, as [`table_reading`] states it.
    pub fn reading_from_table(
        headers: &Vec<(Option<String>, Option<String>)>,
        rows: &Vec<Vec<String>>,
    ) -> (r: Result<Measurements, DownloadError>)
        ensures
            outcome_view(r) == table_reading(header_views(headers@), row_views(rows@)),
            r matches Ok(m) ==> valid_reading(m@),
    {
        let titles = match header_titles(headers) {
            Some(t) => t,
            None => {
                return Err(DownloadError::Format);
            },
        };
        let cells = match first_usable_row(rows) {
            Some(c) => c,
            None => {
                return Err(DownloadError::Format);
            },
        };
        let stamp = match field_exec(&titles, &cells, STAMP_TITLE) {
            Some(s) => s,
            None => {
                return Err(DownloadError::Format);
            },
        };
        let stamp_text = string_of(&stamp);
        let local = match parse_naive(stamp_text.as_str(), STAMP_FORMAT) {
            Some(t) => t,
            None => {
                return Err(DownloadError::Parse);
            },
        };
        let utc = madrid_to_utc(local);
        Ok(
            Measurements {
                update_time: time_string(utc),
                humidity: keep_percent(read_u64(&field_exec(&titles, &cells, "Humidity (%)"))),
                precipitation: keep_amount(
                    read_decimal(&field_exec(&titles, &cells, "Precipitation (mm)")),
                ),
                pressure: read_rounded(&field_exec(&titles, &cells, "Pressure (hPa)")),
                temperature: read_decimal(&field_exec(&titles, &cells, "Temperature (\u{b0}C)")),
                wind_direction: opt_initials_exec(&field_exec(&titles, &cells, "Wind direction")),
                wind_speed: read_u64(&field_exec(&titles, &cells, "Wind speed (km/h)")),
                gusts_speed: read_u64(&field_exec(&titles, &cells, "Gust (km/h)")),
            },
        )
    }
}

/// A table whose rows all have nothing but empty cells after the timestamp
/// settles to the all-absent record: no failure surfaces.
pub proof fn lemma_blank_rows_give_empty(
    headers: Seq<(Option<Seq<char>>, Option<Seq<char>>)>,
    rows: Seq<Seq<Seq<char>>>,
)
    requires
        forall|j: int| 0 <= j < rows.len() ==> !usable(#[trigger] row_cells(rows, j)),
    ensures
        settled(table_reading(headers, rows)) == absent(),
{
    crate::scan::lemma_first_where_none(
        rows.len() as int,
        |j: int| usable(row_cells(rows, j)),
    );
}

/// The top usable row is the one read: rows above it are all blank.
pub proof fn lemma_first_usable_row_wins(rows: Seq<Seq<Seq<char>>>, j: int)
    requires
        0 <= j < rows.len(),
        usable(row_cells(rows, j)),
        forall|k: int| 0 <= k < j ==> !usable(#[trigger] row_cells(rows, k)),
    ensures
        latest_row(rows) == Some(j),
{
    lemma_first_where_is(rows.len() as int, |k: int| usable(row_cells(rows, k)), j);
}

} // verus!
