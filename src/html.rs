use crate::measurements::text_view;
use crate::scan::strings;
use scraper::{ElementRef, Html, Selector};
use vstd::prelude::*;

verus! {

#[verifier::external_type_specification]
#[verifier::external_body]
pub struct ExHtml(Html);

#[verifier::external_type_specification]
#[verifier::external_body]
pub struct ExElementRef<'a>(ElementRef<'a>);

/// A step from an element to a descendant: the descendants matching a CSS
/// selector, in document order, and the position among them.
pub type Step = (Seq<char>, nat);

/// The text that `String::from_utf8_lossy` makes of bytes.
pub uninterp spec fn utf8_lossy_of(bytes: Seq<u8>) -> Seq<char>;

/// How many descendants match `selector` (none if it does not parse) under the
/// element reached from the root element of the HTML document `text` by `path`,
/// as scraper's `Html::parse_document` and `ElementRef::select` find them.
pub uninterp spec fn match_count_of(text: Seq<char>, path: Seq<Step>, selector: Seq<char>) -> nat;

/// The value of attribute `name` of the element at `path` in the HTML document
/// `text`, as scraper's `ElementRef::attr` gives it.
pub uninterp spec fn attribute_of(text: Seq<char>, path: Seq<Step>, name: Seq<char>) -> Option<
    Seq<char>,
>;

/// The descendant text of the element at `path` in the HTML document `text`,
/// joined, as scraper's `ElementRef::text` gives it.
pub uninterp spec fn text_of(text: Seq<char>, path: Seq<Step>) -> Seq<char>;

/// An HTML document together with the text it was parsed from. Only
/// [`parse_page`] makes one, so the tree is always the parse of the text.
pub struct Page {
    text: String,
    doc: Html,
}

impl Page {
    pub closed spec fn source(&self) -> Seq<char> {
        self.text@
    }
}

/// An element of a [`Page`] and its path from the page's root element. Only
/// [`root`] and [`select_within`] make one, so the element is always the one
/// that the path reaches.
pub struct Element<'a> {
    page: &'a Page,
    el: ElementRef<'a>,
    steps: Vec<(String, usize)>,
}

pub open spec fn steps_view(steps: Seq<(String, usize)>) -> Seq<Step> {
    steps.map_values(|s: (String, usize)| (s.0@, s.1 as nat))
}

impl<'a> Element<'a> {
    pub closed spec fn source(&self) -> Seq<char> {
        self.page.source()
    }

    pub closed spec fn path(&self) -> Seq<Step> {
        steps_view(self.steps@)
    }
}

/// Relies on `String::from_utf8_lossy`: bytes read as UTF-8, bad sequences replaced.
#[verifier::external_body]
pub(crate) fn decode_utf8_lossy(bytes: &[u8]) -> (r: String)
    ensures
        r@ == utf8_lossy_of(bytes@),
{
    String::from_utf8_lossy(bytes).into_owned()
}

/// Relies on scraper's `Html::parse_document`: the document tree of an HTML text.
#[verifier::external_body]
pub(crate) fn parse_page(text: &str) -> (r: Page)
    ensures
        r.source() == text@,
{
    Page { text: text.to_string(), doc: Html::parse_document(text) }
}

/// Relies on scraper's `Html::root_element`: the element that paths start from.
#[verifier::external_body]
pub(crate) fn root<'a>(page: &'a Page) -> (r: Element<'a>)
    ensures
        r.source() == page.source(),
        r.path() == Seq::<Step>::empty(),
{
    Element { page, el: page.doc.root_element(), steps: Vec::new() }
}

/// The element one step below `parent`.
fn child<'a>(parent: &Element<'a>, selector: &str, i: usize, el: ElementRef<'a>) -> (r: Element<'a>)
    ensures
        r.source() == parent.source(),
        r.path() == parent.path().push((selector@, i as nat)),
{
    let mut steps: Vec<(String, usize)> = Vec::new();
    let mut k: usize = 0;
    while k < parent.steps.len()
        invariant
            k <= parent.steps@.len(),
            steps_view(steps@) == parent.path().subrange(0, k as int),
            parent.path() == steps_view(parent.steps@),
        decreases parent.steps@.len() - k,
    {
        let s = &parent.steps[k];
        let name = s.0.clone();
        assert(name@ == s.0@);
        let ghost before = steps@;
        steps.push((name, s.1));
        assert(steps_view(steps@) =~= steps_view(before).push((s.0@, s.1 as nat)));
        assert(parent.path()[k as int] == (s.0@, s.1 as nat));
        k = k + 1;
        assert(steps_view(steps@) =~= parent.path().subrange(0, k as int));
    }
    let ghost before = steps@;
    let name = selector.to_string();
    steps.push((name, i));
    assert(steps_view(steps@) =~= steps_view(before).push((selector@, i as nat)));
    assert(steps_view(parent.steps@) == parent.path());
    assert(steps_view(steps@) =~= parent.path().push((selector@, i as nat)));
    Element { page: parent.page, el, steps }
}

/// Relies on scraper's `Selector::parse` and `ElementRef::select`: the descendants
/// of `parent` that match `selector`, in document order.
#[verifier::external_body]
pub(crate) fn select_within<'a>(parent: &Element<'a>, selector: &str) -> (r: Vec<Element<'a>>)
    ensures
        r@.len() == match_count_of(parent.source(), parent.path(), selector@),
        forall|i: int|
            0 <= i < r@.len() ==> (#[trigger] r@[i]).source() == parent.source() && r@[i].path()
                == parent.path().push((selector@, i as nat)),
{
    match Selector::parse(selector) {
        Ok(s) => parent.el.select(&s).enumerate().map(|(i, e)| child(parent, selector, i, e)).collect(),
        Err(_) => Vec::new(),
    }
}

/// Relies on scraper's `ElementRef::attr`: the value of an attribute, if present.
#[verifier::external_body]
pub(crate) fn attribute<'a>(el: &Element<'a>, name: &str) -> (r: Option<String>)
    ensures
        text_view(r) == attribute_of(el.source(), el.path(), name@),
{
    el.el.attr(name).map(|v| v.to_string())
}

/// Relies on scraper's `ElementRef::text`: the descendant text nodes, joined.
#[verifier::external_body]
pub(crate) fn text_content<'a>(el: &Element<'a>) -> (r: String)
    ensures
        r@ == text_of(el.source(), el.path()),
{
    el.el.text().collect()
}

/// The texts of the descendants matching `selector` under the element at `path`.
pub open spec fn cells_of(text: Seq<char>, path: Seq<Step>, selector: Seq<char>) -> Seq<Seq<char>> {
    Seq::new(
        match_count_of(text, path, selector),
        |k: int| text_of(text, path.push((selector, k as nat))),
    )
}

/// The texts of the descendants of `parent` that match `selector`.
pub fn cell_texts<'a>(parent: &Element<'a>, selector: &str) -> (r: Vec<String>)
    ensures
        strings(r@) == cells_of(parent.source(), parent.path(), selector@),
{
    let els = select_within(parent, selector);
    let ghost all = cells_of(parent.source(), parent.path(), selector@);
    let mut r: Vec<String> = Vec::new();
    let mut k: usize = 0;
    while k < els.len()
        invariant
            k <= els@.len() == all.len(),
            all == cells_of(parent.source(), parent.path(), selector@),
            forall|i: int|
                0 <= i < els@.len() ==> (#[trigger] els@[i]).source() == parent.source()
                    && els@[i].path() == parent.path().push((selector@, i as nat)),
            strings(r@) == all.subrange(0, k as int),
        decreases els@.len() - k,
    {
        let t = text_content(&els[k]);
        assert(els@[k as int].source() == parent.source());
        let ghost before = r@;
        r.push(t);
        assert(strings(r@) =~= strings(before).push(t@));
        k = k + 1;
        assert(strings(r@) =~= all.subrange(0, k as int));
    }
    assert(all.subrange(0, k as int) =~= all);
    r
}

} // verus!
