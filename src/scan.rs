use crate::text::{chars_of, texts, trim_str, trimmed};
use vstd::prelude::*;

verus! {

/// The first index below `n` at which `p` holds.
pub open spec fn first_where(n: int, p: spec_fn(int) -> bool) -> Option<int> {
    if exists|i: int| 0 <= i < n && #[trigger] p(i) && forall|j: int| 0 <= j < i ==> !#[trigger] p(j) {
        Some(choose|i: int| 0 <= i < n && #[trigger] p(i) && forall|j: int| 0 <= j < i ==> !#[trigger] p(j))
    } else {
        None
    }
}

/// The last index below `n` at which `p` holds.
pub open spec fn last_where(n: int, p: spec_fn(int) -> bool) -> Option<int> {
    if exists|i: int| 0 <= i < n && #[trigger] p(i) && forall|j: int| i < j < n ==> !#[trigger] p(j) {
        Some(choose|i: int| 0 <= i < n && #[trigger] p(i) && forall|j: int| i < j < n ==> !#[trigger] p(j))
    } else {
        None
    }
}

pub proof fn lemma_first_where_is(n: int, p: spec_fn(int) -> bool, i: int)
    requires
        0 <= i < n,
        p(i),
        forall|j: int| 0 <= j < i ==> !#[trigger] p(j),
    ensures
        first_where(n, p) == Some(i),
{
    let k = choose|k: int| 0 <= k < n && #[trigger] p(k) && forall|j: int| 0 <= j < k ==> !#[trigger] p(j);
    assert(k == i) by {
        if k < i {
            assert(!p(k));
        } else if k > i {
            assert(!p(i));
        }
    }
}

pub proof fn lemma_first_where_none(n: int, p: spec_fn(int) -> bool)
    requires
        forall|j: int| 0 <= j < n ==> !#[trigger] p(j),
    ensures
        first_where(n, p) is None,
{
}

pub proof fn lemma_last_where_is(n: int, p: spec_fn(int) -> bool, i: int)
    requires
        0 <= i < n,
        p(i),
        forall|j: int| i < j < n ==> !#[trigger] p(j),
    ensures
        last_where(n, p) == Some(i),
{
    let k = choose|k: int| 0 <= k < n && #[trigger] p(k) && forall|j: int| k < j < n ==> !#[trigger] p(j);
    assert(k == i) by {
        if k < i {
            assert(!p(i));
        } else if k > i {
            assert(!p(k));
        }
    }
}

pub proof fn lemma_last_where_none(n: int, p: spec_fn(int) -> bool)
    requires
        forall|j: int| 0 <= j < n ==> !#[trigger] p(j),
    ensures
        last_where(n, p) is None,
{
}

/// The texts of a vector of strings.
pub open spec fn strings(v: Seq<String>) -> Seq<Seq<char>> {
    v.map_values(|x: String| x@)
}

/// Whether two texts are the same.
pub fn same_text(a: &Vec<char>, b: &Vec<char>) -> (r: bool)
    ensures
        r == (a@ == b@),
{
    if a.len() != b.len() {
        return false;
    }
    let mut i: usize = 0;
    while i < a.len()
        invariant
            a@.len() == b@.len(),
            i <= a@.len(),
            forall|j: int| 0 <= j < i ==> a@[j] == b@[j],
        decreases a@.len() - i,
    {
        if a[i] != b[i] {
            return false;
        }
        i = i + 1;
    }
    assert(a@ =~= b@);
    true
}

/// Whether a text equals a string slice.
pub fn is_text(a: &Vec<char>, b: &str) -> (r: bool)
    ensures
        r == (a@ == b@),
{
    let bc = chars_of(b);
    same_text(a, &bc)
}

/// The position of the first title equal to `name`.
pub open spec fn position_of(titles: Seq<Seq<char>>, name: Seq<char>) -> Option<int> {
    first_where(titles.len() as int, |i: int| titles[i] == name)
}

pub fn position(titles: &Vec<Vec<char>>, name: &str) -> (r: Option<usize>)
    ensures
        r matches Some(i) ==> position_of(texts(titles@), name@) == Some(i as int),
        r is None ==> position_of(texts(titles@), name@) is None,
{
    let ghost t = texts(titles@);
    let ghost p = |i: int| t[i] == name@;
    let mut i: usize = 0;
    while i < titles.len()
        invariant
            i <= titles@.len() == t.len(),
            t == texts(titles@),
            p == (|i: int| t[i] == name@),
            forall|j: int| 0 <= j < i ==> !#[trigger] p(j),
        decreases titles@.len() - i,
    {
        if is_text(&titles[i], name) {
            proof {
                lemma_first_where_is(t.len() as int, p, i as int);
            }
            return Some(i);
        }
        i = i + 1;
    }
    proof {
        lemma_first_where_none(t.len() as int, p);
    }
    None
}

/// The cell under the first title equal to `name`, if the row reaches that far.
pub open spec fn field(titles: Seq<Seq<char>>, cells: Seq<Seq<char>>, name: Seq<char>) -> Option<
    Seq<char>,
> {
    match position_of(titles, name) {
        Some(i) => if i < cells.len() {
            Some(cells[i])
        } else {
            None
        },
        None => None,
    }
}

pub fn field_exec(titles: &Vec<Vec<char>>, cells: &Vec<Vec<char>>, name: &str) -> (r: Option<
    Vec<char>,
>)
    ensures
        r matches Some(v) ==> field(texts(titles@), texts(cells@), name@) == Some(v@),
        r is None ==> field(texts(titles@), texts(cells@), name@) is None,
{
    match position(titles, name) {
        Some(i) => if i < cells.len() {
            Some(cells[i].clone())
        } else {
            None
        },
        None => None,
    }
}

/// Each text of a row, trimmed.
pub open spec fn trim_all(cells: Seq<Seq<char>>) -> Seq<Seq<char>> {
    cells.map_values(|c: Seq<char>| trimmed(c))
}

pub fn trim_cells(cells: &Vec<String>) -> (r: Vec<Vec<char>>)
    ensures
        texts(r@) == trim_all(strings(cells@)),
{
    let mut r: Vec<Vec<char>> = Vec::new();
    let mut i: usize = 0;
    while i < cells.len()
        invariant
            i <= cells@.len(),
            texts(r@) == trim_all(strings(cells@)).subrange(0, i as int),
        decreases cells@.len() - i,
    {
        let t = trim_str(cells[i].as_str());
        assert(strings(cells@)[i as int] == cells@[i as int]@);
        assert(trim_all(strings(cells@))[i as int] == t@);
        let ghost before = r@;
        r.push(t);
        assert(texts(r@) =~= texts(before).push(t@));
        i = i + 1;
        assert(texts(r@) =~= trim_all(strings(cells@)).subrange(0, i as int));
    }
    assert(trim_all(strings(cells@)).subrange(0, i as int) =~= trim_all(strings(cells@)));
    r
}

} // verus!
