use crate::compass::{compass_of, wind_direction_name};
use crate::decimal::Decimal;
use crate::fields::{
    amount, keep_amount, keep_percent, opt_decimal, opt_rounded, opt_u64, outcome_view, percent,
    read_decimal, read_rounded, read_u64, settle, settled, time_string, valid_reading,
};
use crate::html::{
    attribute, attribute_of, cell_texts, cells_of, decode_utf8_lossy, match_count_of, parse_page,
    root, select_within, text_content, text_of, utf8_lossy_of, Element, Page, Step,
};
use crate::measurements::{absent, text_view, DownloadError, Measurements, Reading};
use crate::scan::{
    field, field_exec, is_text, last_where, lemma_last_where_is, lemma_last_where_none, strings,
    trim_all, trim_cells,
};
use crate::text::{chars_of, string_of, texts, trim_str, trimmed};
use crate::timestamp::{naive_time_of, parse_naive, time_text};
use vstd::prelude::*;

verus! {

/// The prefix of the station pages of the Meteorological Service of Catalonia.
pub const BASE_URL: &'static str = "https://www.meteo.cat/";

/// Reads the half-hourly table of a station page of the Meteorological Service of
/// Catalonia. Its times are already in UTC.
pub struct MeteocatDownloader {}

/// The text of a cell that holds no data.
pub const NO_DATA: &'static str = "(s/d)";

/// How the date input and the end of a time range combine into a time.
pub const STAMP_FORMAT: &'static str = "%d.%m.%Y %H:%M";

/// Whether `sep` occurs in `s` at `i`.
pub open spec fn occurs_at(s: Seq<char>, i: int, sep: Seq<char>) -> bool {
    0 <= i && i + sep.len() <= s.len() && s.subrange(i, i + sep.len()) == sep
}

/// Where the last piece starts when `s` is split on `sep` from the left, having
/// reached position `i` with the current piece starting at `start`.
pub open spec fn piece_start(s: Seq<char>, sep: Seq<char>, i: int, start: int) -> int
    decreases s.len() - i,
{
    if sep.len() == 0 || i >= s.len() {
        start
    } else if occurs_at(s, i, sep) {
        piece_start(s, sep, i + sep.len(), i + sep.len())
    } else {
        piece_start(s, sep, i + 1, start)
    }
}

/// The last piece of `s` split on `sep`, as `str::split(..).last()` gives it.
pub open spec fn last_piece(s: Seq<char>, sep: Seq<char>) -> Seq<char> {
    s.subrange(piece_start(s, sep, 0, 0), s.len() as int)
}

/// A row is usable unless every cell holds the no-data marker.
pub open spec fn usable(cells: Seq<Seq<char>>) -> bool {
    !(forall|k: int| 0 <= k < cells.len() ==> #[trigger] cells[k] == NO_DATA@)
}

pub open spec fn row_cells(rows: Seq<(Option<Seq<char>>, Seq<Seq<char>>)>, j: int) -> Seq<Seq<char>> {
    trim_all(rows[j].1)
}

/// The most recent usable row: the last one in the table.
pub open spec fn latest_row(rows: Seq<(Option<Seq<char>>, Seq<Seq<char>>)>) -> Option<int> {
    last_where(rows.len() as int, |j: int| usable(row_cells(rows, j)))
}

pub open spec fn all_named(headers: Seq<Option<Seq<char>>>) -> bool {
    forall|i: int| 0 <= i < headers.len() ==> #[trigger] headers[i] is Some
}

pub open spec fn titles_of(headers: Seq<Option<Seq<char>>>) -> Seq<Seq<char>> {
    headers.map_values(|h: Option<Seq<char>>| trimmed(h->0))
}

/// Every row has its time cell.
pub open spec fn all_timed(rows: Seq<(Option<Seq<char>>, Seq<Seq<char>>)>) -> bool {
    forall|j: int| 0 <= j < rows.len() ==> #[trigger] rows[j].0 is Some
}

/// The titles that the data cells line up with: all but the first, which heads
/// the time column.
pub open spec fn data_titles(titles: Seq<Seq<char>>) -> Seq<Seq<char>> {
    if titles.len() > 0 {
        titles.drop_first()
    } else {
        titles
    }
}

pub open spec fn opt_compass(d: Option<Decimal>) -> Option<Seq<char>> {
    match d {
        Some(v) => Some(compass_of(v)),
        None => None,
    }
}

/// The reading that a station page gives: `headers` holds the title of the first
/// `span` of each header cell, `rows` the text of each row's time cell and the
/// texts of its data cells, `date` the value of the date input.
pub open spec fn table_reading(
    headers: Seq<Option<Seq<char>>>,
    rows: Seq<(Option<Seq<char>>, Seq<Seq<char>>)>,
    date: Option<Seq<char>>,
) -> Result<Reading, DownloadError> {
    if !all_named(headers) || !all_timed(rows) {
        Err(DownloadError::Format)
    } else {
        match latest_row(rows) {
            None => Err(DownloadError::Format),
            Some(j) => match date {
                None => Err(DownloadError::Format),
                Some(d) => {
                    let time = last_piece(trimmed(rows[j].0->0), " - "@);
                    let stamp = trimmed(d) + " "@ + time;
                    match naive_time_of(stamp, STAMP_FORMAT@) {
                        None => Err(DownloadError::Parse),
                        Some(t) => {
                            let titles = data_titles(titles_of(headers));
                            let cells = row_cells(rows, j);
                            Ok(
                                Reading {
                                    update_time: Some(time_text(t)),
                                    humidity: percent(
                                        opt_u64(
                                            field(titles, cells, "Humitat relativa mitjana (%)"@),
                                        ),
                                    ),
                                    precipitation: amount(
                                        opt_decimal(
                                            field(titles, cells, "Precipitaci\u{f3} (mm)"@),
                                        ),
                                    ),
                                    pressure: opt_rounded(
                                        field(
                                            titles,
                                            cells,
                                            "Pressi\u{f3} atmosf\u{e8}rica mitjana (hPa)"@,
                                        ),
                                    ),
                                    temperature: opt_decimal(
                                        field(titles, cells, "Temperatura mitjana (\u{b0}C)"@),
                                    ),
                                    wind_direction: opt_compass(
                                        opt_decimal(
                                            field(
                                                titles,
                                                cells,
                                                "Direcci\u{f3} mitjana del vent (graus)"@,
                                            ),
                                        ),
                                    ),
                                    wind_speed: opt_rounded(
                                        field(titles, cells, "Velocitat mitjana del vent (km/h)"@),
                                    ),
                                    gusts_speed: opt_rounded(
                                        field(titles, cells, "Ratxa m\u{e0}xima del vent (km/h)"@),
                                    ),
                                },
                            )
                        },
                    }
                },
            },
        }
    }
}

fn occurs_at_exec(s: &Vec<char>, i: usize, sep: &Vec<char>) -> (r: bool)
    requires
        i <= s@.len(),
    ensures
        r == occurs_at(s@, i as int, sep@),
{
    if sep.len() > s.len() - i {
        return false;
    }
    let mut k: usize = 0;
    while k < sep.len()
        invariant
            k <= sep@.len(),
            i + sep@.len() <= s@.len(),
            s@.len() == s.len(),
            forall|m: int| 0 <= m < k ==> s@[i + m] == sep@[m],
        decreases sep@.len() - k,
    {
        if s[i + k] != sep[k] {
            assert(s@.subrange(i as int, i + sep@.len())[k as int] != sep@[k as int]);
            return false;
        }
        k = k + 1;
    }
    assert(s@.subrange(i as int, i + sep@.len()) =~= sep@);
    true
}

/// The last piece of `s` split on `sep`.
pub fn split_last(s: &Vec<char>, sep: &Vec<char>) -> (r: Vec<char>)
    ensures
        r@ == last_piece(s@, sep@),
{
    let n = s.len();
    let mut start: usize = 0;
    if sep.len() > 0 {
        let mut i: usize = 0;
        while i < n
            invariant
                n == s@.len(),
                sep@.len() > 0,
                start <= i <= n,
                piece_start(s@, sep@, 0, 0) == piece_start(s@, sep@, i as int, start as int),
            decreases n - i,
        {
            if occurs_at_exec(s, i, sep) {
                i = i + sep.len();
                start = i;
            } else {
                i = i + 1;
            }
        }
    }
    let mut r: Vec<char> = Vec::new();
    let mut k: usize = start;
    while k < n
        invariant
            start <= k <= n == s@.len(),
            r@ == s@.subrange(start as int, k as int),
        decreases n - k,
    {
        r.push(s[k]);
        k = k + 1;
        assert(r@ =~= s@.subrange(start as int, k as int));
    }
    r
}

fn is_usable(cells: &Vec<Vec<char>>) -> (r: bool)
    ensures
        r == usable(texts(cells@)),
{
    let mut k: usize = 0;
    while k < cells.len()
        invariant
            k <= cells@.len(),
            forall|m: int| 0 <= m < k ==> #[trigger] texts(cells@)[m] == NO_DATA@,
        decreases cells@.len() - k,
    {
        if !is_text(&cells[k], NO_DATA) {
            assert(texts(cells@)[k as int] != NO_DATA@);
            return true;
        }
        k = k + 1;
    }
    false
}

/// The trimmed cells and time text of the latest usable row.
fn last_usable_row(rows: &Vec<(Option<String>, Vec<String>)>) -> (r: Option<
    (Vec<Vec<char>>, Vec<char>),
>)
    requires
        all_timed(timed_row_views(rows@)),
    ensures
        r is None ==> latest_row(timed_row_views(rows@)) is None,
        r matches Some(c) ==> latest_row(timed_row_views(rows@)) matches Some(j) && texts(c.0@) == row_cells(
            timed_row_views(rows@),
            j,
        ) && c.1@ == trimmed(timed_row_views(rows@)[j].0->0),
{
    let ghost p = |j: int| usable(row_cells(timed_row_views(rows@), j));
    let mut found: Option<(Vec<Vec<char>>, Vec<char>)> = None;
    let mut j: usize = 0;
    while j < rows.len()
        invariant
            j <= rows@.len(),
            all_timed(timed_row_views(rows@)),
            p == (|j: int| usable(row_cells(timed_row_views(rows@), j))),
            found is None ==> forall|k: int| 0 <= k < j ==> !#[trigger] p(k),
            found matches Some(c) ==> exists|i: int|
                0 <= i < j && p(i) && (forall|k: int| i < k < j ==> !#[trigger] p(k)) && texts(
                    c.0@,
                ) == row_cells(timed_row_views(rows@), i) && c.1@ == trimmed(timed_row_views(rows@)[i].0->0),
        decreases rows@.len() - j,
    {
        let cells = trim_cells(&rows[j].1);
        assert(timed_row_views(rows@)[j as int] == (text_view(rows@[j as int].0), strings(
            rows@[j as int].1@,
        )));
        assert(texts(cells@) == row_cells(timed_row_views(rows@), j as int));
        if is_usable(&cells) {
            assert(timed_row_views(rows@)[j as int].0 is Some);
            let time = match &rows[j].0 {
                Some(t) => trim_str(t.as_str()),
                None => Vec::new(),
            };
            found = Some((cells, time));
            proof {
                let c = found->0;
                assert(p(j as int));
                assert(forall|k: int| j < k < j + 1 ==> !#[trigger] p(k));
                assert(texts(c.0@) == row_cells(timed_row_views(rows@), j as int) && c.1@ == trimmed(timed_row_views(rows@)[j as int].0->0));
            }
        } else {
            assert(!p(j as int));
        }
        j = j + 1;
    }
    match found {
        Some(c) => {
            proof {
                let i = choose|i: int|
                    0 <= i < j && p(i) && (forall|k: int| i < k < j ==> !#[trigger] p(k))
                        && texts(c.0@) == row_cells(timed_row_views(rows@), i) && c.1@ == trimmed(timed_row_views(rows@)[i].0->0);
                lemma_last_where_is(rows@.len() as int, p, i);
            }
            Some(c)
        },
        None => {
            proof {
                lemma_last_where_none(rows@.len() as int, p);
            }
            None
        },
    }
}

fn opt_compass_exec(d: Option<Decimal>) -> (r: Option<String>)
    requires
        d matches Some(v) ==> v.wf(),
    ensures
        crate::measurements::text_view(r) == opt_compass(d),
{
    match d {
        Some(v) => Some(wind_direction_name(v).to_string()),
        None => None,
    }
}

fn header_titles(headers: &Vec<Option<String>>) -> (r: Option<Vec<Vec<char>>>)
    ensures
        r is None <==> !all_named(opt_views(headers@)),
        r matches Some(t) ==> texts(t@) == data_titles(titles_of(opt_views(headers@))),
{
    let mut titles: Vec<Vec<char>> = Vec::new();
    let mut i: usize = 0;
    while i < headers.len()
        invariant
            i <= headers@.len(),
            forall|k: int| 0 <= k < i ==> #[trigger] opt_views(headers@)[k] is Some,
            texts(titles@) == titles_of(opt_views(headers@)).subrange(0, i as int),
        decreases headers@.len() - i,
    {
        assert(opt_views(headers@)[i as int] == text_view(headers@[i as int]));
        let name = match &headers[i] {
            Some(t) => trim_str(t.as_str()),
            None => {
                return None;
            },
        };
        let ghost before = titles@;
        titles.push(name);
        assert(texts(titles@) =~= texts(before).push(name@));
        i = i + 1;
        assert(texts(titles@) =~= titles_of(opt_views(headers@)).subrange(0, i as int));
    }
    assert(titles_of(opt_views(headers@)).subrange(0, i as int) =~= titles_of(opt_views(headers@)));
    let mut data: Vec<Vec<char>> = Vec::new();
    let mut k: usize = 1;
    while k < titles.len()
        invariant
            1 <= k,
            texts(titles@) == titles_of(opt_views(headers@)),
            k <= titles@.len() ==> texts(data@) == texts(titles@).subrange(1, k as int),
            titles@.len() == 0 ==> data@.len() == 0,
            titles@.len() > 0 ==> k <= titles@.len(),
        decreases titles@.len() - k,
    {
        let ghost before = data@;
        data.push(titles[k].clone());
        assert(texts(data@) =~= texts(before).push(titles@[k as int]@));
        k = k + 1;
        assert(texts(data@) =~= texts(titles@).subrange(1, k as int));
    }
    proof {
        if titles@.len() > 0 {
            assert(k == titles@.len());
            assert(texts(titles@).subrange(1, titles@.len() as int) =~= texts(
                titles@,
            ).drop_first());
        } else {
            assert(texts(data@) =~= texts(titles@));
        }
    }
    Some(data)
}

fn check_timed(rows: &Vec<(Option<String>, Vec<String>)>) -> (r: bool)
    ensures
        r == all_timed(timed_row_views(rows@)),
{
    let mut j: usize = 0;
    while j < rows.len()
        invariant
            j <= rows@.len(),
            forall|k: int| 0 <= k < j ==> #[trigger] timed_row_views(rows@)[k].0 is Some,
        decreases rows@.len() - j,
    {
        assert(timed_row_views(rows@)[j as int].0 == text_view(rows@[j as int].0));
        if rows[j].0.is_none() {
            return false;
        }
        j = j + 1;
    }
    true
}

/// Selects the half-hourly table.
pub const TABLE_SELECTOR: &'static str = "table.tblperiode";

/// Selects the date input.
pub const DATE_SELECTOR: &'static str = "input#datepicker";

/// The views of extracted header titles.
pub open spec fn opt_views(h: Seq<Option<String>>) -> Seq<Option<Seq<char>>> {
    h.map_values(|x: Option<String>| text_view(x))
}

/// The views of extracted rows: the time cell's text and the data cells' texts.
pub open spec fn timed_row_views(rows: Seq<(Option<String>, Vec<String>)>) -> Seq<
    (Option<Seq<char>>, Seq<Seq<char>>),
> {
    rows.map_values(|r: (Option<String>, Vec<String>)| (text_view(r.0), strings(r.1@)))
}

/// The title of the first `span` of header cell `k` of the header row at `h`.
pub open spec fn header_title_at(text: Seq<char>, h: Seq<Step>, k: int) -> Option<Seq<char>> {
    let c = h.push(("th"@, k as nat));
    if match_count_of(text, c, "span"@) == 0 {
        None
    } else {
        attribute_of(text, c.push(("span"@, 0nat)), "title"@)
    }
}

/// The text of the first `th` of row `j` of the table at `t`, and its `td` texts.
pub open spec fn row_at(text: Seq<char>, t: Seq<Step>, j: int) -> (
    Option<Seq<char>>,
    Seq<Seq<char>>,
) {
    let r = t.push(("tr"@, j as nat));
    (
        if match_count_of(text, r, "th"@) == 0 {
            None
        } else {
            Some(text_of(text, r.push(("th"@, 0nat))))
        },
        cells_of(text, r, "td"@),
    )
}

/// The `value` of the first date input of a page.
pub open spec fn page_date(text: Seq<char>) -> Option<Seq<char>> {
    let top = Seq::<Step>::empty();
    if match_count_of(text, top, DATE_SELECTOR@) == 0 {
        None
    } else {
        attribute_of(text, top.push((DATE_SELECTOR@, 0nat)), "value"@)
    }
}

/// What a station page holds of its table: the header titles of the first
/// `table.tblperiode`'s first row, the rows below it, and the date; `None`
/// without the table or without rows.
pub open spec fn page_table(text: Seq<char>) -> Option<
    (Seq<Option<Seq<char>>>, Seq<(Option<Seq<char>>, Seq<Seq<char>>)>, Option<Seq<char>>),
> {
    let top = Seq::<Step>::empty();
    let t = top.push((TABLE_SELECTOR@, 0nat));
    let n = match_count_of(text, t, "tr"@);
    if match_count_of(text, top, TABLE_SELECTOR@) == 0 || n == 0 {
        None
    } else {
        let h = t.push(("tr"@, 0nat));
        Some(
            (
                Seq::new(match_count_of(text, h, "th"@), |k: int| header_title_at(text, h, k)),
                Seq::new((n - 1) as nat, |j: int| row_at(text, t, j + 1)),
                page_date(text),
            ),
        )
    }
}

/// The reading that a station page's text gives.
pub open spec fn page_reading(text: Seq<char>) -> Result<Reading, DownloadError> {
    match page_table(text) {
        Some((headers, rows, date)) => table_reading(headers, rows, date),
        None => Err(DownloadError::Format),
    }
}

/// The first element matching `selector` under `parent`, if any.
fn first_within<'a>(parent: &Element<'a>, selector: &str) -> (r: Option<Element<'a>>)
    ensures
        r is None <==> match_count_of(parent.source(), parent.path(), selector@) == 0,
        r matches Some(e) ==> e.source() == parent.source() && e.path() == parent.path().push(
            (selector@, 0nat),
        ),
{
    let mut all = select_within(parent, selector);
    if all.len() == 0 {
        None
    } else {
        let ghost first = all@[0];
        assert(first.source() == parent.source());
        let e = all.swap_remove(0);
        Some(e)
    }
}

/// The header titles, the rows and the date of a station page.
fn read_page(page: &Page) -> (r: Option<
    (Vec<Option<String>>, Vec<(Option<String>, Vec<String>)>, Option<String>),
>)
    ensures
        match r {
            Some((h, rows, date)) => page_table(page.source()) == Some(
                (opt_views(h@), timed_row_views(rows@), text_view(date)),
            ),
            None => page_table(page.source()) is None,
        },
{
    let ghost text = page.source();
    let top = root(page);
    let table = match first_within(&top, TABLE_SELECTOR) {
        Some(t) => t,
        None => {
            return None;
        },
    };
    let ghost t = Seq::<Step>::empty().push((TABLE_SELECTOR@, 0nat));
    let rows = select_within(&table, "tr");
    if rows.len() == 0 {
        return None;
    }
    let ghost h = t.push(("tr"@, 0nat));
    assert(rows@[0].path() == h);
    let ths = select_within(&rows[0], "th");
    let ghost want_h = Seq::new(
        match_count_of(text, h, "th"@),
        |k: int| header_title_at(text, h, k),
    );
    let mut headers: Vec<Option<String>> = Vec::new();
    let mut i: usize = 0;
    while i < ths.len()
        invariant
            i <= ths@.len() == want_h.len(),
            want_h == Seq::new(
                match_count_of(text, h, "th"@),
                |k: int| header_title_at(text, h, k),
            ),
            forall|k: int|
                0 <= k < ths@.len() ==> (#[trigger] ths@[k]).source() == text && ths@[k].path()
                    == h.push(("th"@, k as nat)),
            opt_views(headers@) == want_h.subrange(0, i as int),
        decreases ths@.len() - i,
    {
        assert(ths@[i as int].source() == text);
        let title = match first_within(&ths[i], "span") {
            Some(span) => attribute(&span, "title"),
            None => None,
        };
        let ghost before = headers@;
        headers.push(title);
        assert(opt_views(headers@) =~= opt_views(before).push(text_view(title)));
        i = i + 1;
        assert(opt_views(headers@) =~= want_h.subrange(0, i as int));
    }
    assert(want_h.subrange(0, i as int) =~= want_h);
    let n = rows.len();
    let ghost want_r = Seq::new((n - 1) as nat, |j: int| row_at(text, t, j + 1));
    let mut body: Vec<(Option<String>, Vec<String>)> = Vec::new();
    let mut k: usize = 1;
    while k < n
        invariant
            1 <= k <= n == rows@.len(),
            want_r == Seq::new((n - 1) as nat, |j: int| row_at(text, t, j + 1)),
            forall|j: int|
                0 <= j < rows@.len() ==> (#[trigger] rows@[j]).source() == text && rows@[j].path()
                    == t.push(("tr"@, j as nat)),
            timed_row_views(body@) == want_r.subrange(0, k - 1),
        decreases n - k,
    {
        assert(rows@[k as int].source() == text);
        let time = match first_within(&rows[k], "th") {
            Some(th) => Some(text_content(&th)),
            None => None,
        };
        let cells = cell_texts(&rows[k], "td");
        let ghost before = body@;
        body.push((time, cells));
        assert(timed_row_views(body@) =~= timed_row_views(before).push(
            (text_view(time), strings(cells@)),
        ));
        k = k + 1;
        assert(timed_row_views(body@) =~= want_r.subrange(0, k - 1));
    }
    assert(want_r.subrange(0, n - 1) =~= want_r);
    let date = match first_within(&top, DATE_SELECTOR) {
        Some(input) => attribute(&input, "value"),
        None => None,
    };
    Some((headers, body, date))
}

impl MeteocatDownloader {
    /// The prefix of the URLs this collector claims.
    pub fn base_url(&self) -> (r: String)
        ensures
            r@ == BASE_URL@,
    {
        BASE_URL.to_string()
    }

    /// The address to fetch for a station: its page itself.
    pub fn request_url(&self, url: &str) -> (r: String)
        ensures
            r@ == url@,
    {
        url.to_string()
    }

    /// The reading of a station page's table, as [`table_reading`] states it.
    pub fn reading_from_table(
        headers: &Vec<Option<String>>,
        rows: &Vec<(Option<String>, Vec<String>)>,
        date: &Option<String>,
    ) -> (r: Result<Measurements, DownloadError>)
        ensures
            outcome_view(r) == table_reading(
                opt_views(headers@),
                timed_row_views(rows@),
                text_view(*date),
            ),
            r matches Ok(m) ==> valid_reading(m@),
    {
        let titles = match header_titles(headers) {
            Some(t) => t,
            None => {
                return Err(DownloadError::Format);
            },
        };
        if !check_timed(rows) {
            return Err(DownloadError::Format);
        }
        let (cells, time_text) = match last_usable_row(rows) {
            Some(c) => c,
            None => {
                return Err(DownloadError::Format);
            },
        };
        let d = match date {
            Some(d) => d,
            None => {
                return Err(DownloadError::Format);
            },
        };
        let sep = chars_of(" - ");
        let time = split_last(&time_text, &sep);
        let mut stamp = trim_str(d.as_str());
        stamp.push(' ');
        let mut k: usize = 0;
        let ghost base = stamp@;
        while k < time.len()
            invariant
                k <= time@.len(),
                stamp@ == base + time@.subrange(0, k as int),
            decreases time@.len() - k,
        {
            stamp.push(time[k]);
            k = k + 1;
            assert(stamp@ =~= base + time@.subrange(0, k as int));
        }
        proof {
            reveal_strlit(" ");
            assert(time@.subrange(0, time@.len() as int) =~= time@);
            assert(stamp@ =~= trimmed(d@) + " "@ + time@);
        }
        let stamp_text = string_of(&stamp);
        let t = match parse_naive(stamp_text.as_str(), STAMP_FORMAT) {
            Some(t) => t,
            None => {
                return Err(DownloadError::Parse);
            },
        };
        Ok(
            Measurements {
                update_time: time_string(Some(t)),
                humidity: keep_percent(
                    read_u64(&field_exec(&titles, &cells, "Humitat relativa mitjana (%)")),
                ),
                precipitation: keep_amount(
                    read_decimal(&field_exec(&titles, &cells, "Precipitaci\u{f3} (mm)")),
                ),
                pressure: read_rounded(
                    &field_exec(&titles, &cells, "Pressi\u{f3} atmosf\u{e8}rica mitjana (hPa)"),
                ),
                temperature: read_decimal(
                    &field_exec(&titles, &cells, "Temperatura mitjana (\u{b0}C)"),
                ),
                wind_direction: opt_compass_exec(
                    read_decimal(
                        &field_exec(&titles, &cells, "Direcci\u{f3} mitjana del vent (graus)"),
                    ),
                ),
                wind_speed: read_rounded(
                    &field_exec(&titles, &cells, "Velocitat mitjana del vent (km/h)"),
                ),
                gusts_speed: read_rounded(
                    &field_exec(&titles, &cells, "Ratxa m\u{e0}xima del vent (km/h)"),
                ),
            },
        )
    }

    /// Reads a fetched station page, as [`page_reading`] states it of the page's
    /// text.
    pub fn try_download(&self, body: &[u8]) -> (r: Result<Measurements, DownloadError>)
        ensures
            outcome_view(r) == page_reading(utf8_lossy_of(body@)),
            r matches Ok(m) ==> valid_reading(m@),
    {
        let text = decode_utf8_lossy(body);
        let page = parse_page(text.as_str());
        match read_page(&page) {
            Some((headers, rows, date)) => Self::reading_from_table(&headers, &rows, &date),
            None => Err(DownloadError::Format),
        }
    }

    /// The total form of [`MeteocatDownloader::try_download`]: the reading of the
    /// fetched page, or the all-absent record when the fetch or the reading failed.
    pub fn download(&self, fetched: Result<Vec<u8>, DownloadError>) -> (m: Measurements)
        ensures
            m@ == match fetched {
                Ok(b) => settled(page_reading(utf8_lossy_of(b@))),
                Err(_) => absent(),
            },
            valid_reading(m@),
    {
        match fetched {
            Ok(body) => settle(self.try_download(body.as_slice())),
            Err(e) => settle(Err(e)),
        }
    }
}

/// A table whose data cells all hold the no-data marker settles to the
/// all-absent record: no failure surfaces.
pub proof fn lemma_no_data_rows_give_empty(
    headers: Seq<Option<Seq<char>>>,
    rows: Seq<(Option<Seq<char>>, Seq<Seq<char>>)>,
    date: Option<Seq<char>>,
)
    requires
        forall|j: int| 0 <= j < rows.len() ==> !usable(#[trigger] row_cells(rows, j)),
    ensures
        crate::fields::settled(table_reading(headers, rows, date)) == absent(),
{
    lemma_last_where_none(rows.len() as int, |j: int| usable(row_cells(rows, j)));
}

/// The bottom usable row is the one read: of several usable rows, the last wins,
/// and the rows below it are all no-data rows.
pub proof fn lemma_last_usable_row_wins(rows: Seq<(Option<Seq<char>>, Seq<Seq<char>>)>, j: int)
    requires
        0 <= j < rows.len(),
        usable(row_cells(rows, j)),
        forall|k: int| j < k < rows.len() ==> !usable(#[trigger] row_cells(rows, k)),
    ensures
        latest_row(rows) == Some(j),
{
    lemma_last_where_is(rows.len() as int, |k: int| usable(row_cells(rows, k)), j);
}

} // verus!
