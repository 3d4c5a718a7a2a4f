use crate::measurements::text_view;
use vstd::prelude::*;

verus! {

/// The capture groups of the leftmost-first match of a regular expression in a
/// text, as regex's `Regex::captures` gives them (group 0 is the whole match);
/// `None` if there is no match or the pattern does not compile.
pub uninterp spec fn first_captures_of(pattern: Seq<char>, text: Seq<char>) -> Option<
    Seq<Option<Seq<char>>>,
>;

/// The capture groups of each successive non-overlapping match of a regular
/// expression in a text, as regex's `Regex::captures_iter` gives them; empty if
/// the pattern does not compile.
pub uninterp spec fn all_captures_of(pattern: Seq<char>, text: Seq<char>) -> Seq<
    Seq<Option<Seq<char>>>,
>;

/// The text that encoding_rs's `ISO_8859_15.decode` makes of bytes.
pub uninterp spec fn latin9_text_of(bytes: Seq<u8>) -> Seq<char>;

pub open spec fn groups_view(g: Seq<Option<String>>) -> Seq<Option<Seq<char>>> {
    g.map_values(|o: Option<String>| text_view(o))
}

pub open spec fn opt_groups_view(g: Option<Vec<Option<String>>>) -> Option<Seq<Option<Seq<char>>>> {
    match g {
        Some(v) => Some(groups_view(v@)),
        None => None,
    }
}

pub open spec fn all_groups_view(g: Seq<Vec<Option<String>>>) -> Seq<Seq<Option<Seq<char>>>> {
    g.map_values(|v: Vec<Option<String>>| groups_view(v@))
}

/// Relies on regex's `Regex::new` and `Regex::captures`: the groups of the first
/// match of `pattern` in `text`.
#[verifier::external_body]
pub(crate) fn first_captures(pattern: &str, text: &str) -> (r: Option<Vec<Option<String>>>)
    ensures
        opt_groups_view(r) == first_captures_of(pattern@, text@),
{
    let re = regex::Regex::new(pattern).ok()?;
    re.captures(text).map(|c| c.iter().map(|m| m.map(|m| m.as_str().to_string())).collect())
}

/// Relies on regex's `Regex::new` and `Regex::captures_iter`: the groups of every
/// match of `pattern` in `text`, in order.
#[verifier::external_body]
pub(crate) fn all_captures(pattern: &str, text: &str) -> (r: Vec<Vec<Option<String>>>)
    ensures
        all_groups_view(r@) == all_captures_of(pattern@, text@),
{
    match regex::Regex::new(pattern) {
        Ok(re) => re.captures_iter(text).map(
            |c| c.iter().map(|m| m.map(|m| m.as_str().to_string())).collect(),
        ).collect(),
        Err(_) => Vec::new(),
    }
}

/// Relies on encoding_rs's `Encoding::decode` with `ISO_8859_15`, which may panic
/// only when the output size overflows `usize`.
#[verifier::external_body]
pub(crate) fn decode_latin9(bytes: &[u8]) -> (r: String)
    requires
        bytes@.len() <= usize::MAX / 4,
    ensures
        r@ == latin9_text_of(bytes@),
{
    encoding_rs::ISO_8859_15.decode(bytes).0.into_owned()
}

} // verus!
