use crate::decimal::{lemma_pow10_bound, lemma_pow10_positive, pow10, pow10_exec, Decimal};
use vstd::arithmetic::div_mod::{lemma_fundamental_div_mod, lemma_fundamental_div_mod_converse};
use vstd::prelude::*;

verus! {

/// The sector of a heading: the heading brought into `[0, 360)`, shifted by half a
/// sector (11.25 degrees), divided by the sector width (22.5 degrees), floored and
/// taken modulo 16. In whole numbers, with the heading as `mantissa / 10^scale`.
pub open spec fn sector(d: Decimal) -> int {
    let p = pow10(d.scale as nat) as int;
    let r = (d.mantissa as int) % (360 * p);
    ((4 * r + 45 * p) / (90 * p)) % 16
}

/// The sixteen compass codes, clockwise from north.
pub open spec fn compass_point(i: int) -> Seq<char> {
    if i == 0 {
        "N"@
    } else if i == 1 {
        "NNE"@
    } else if i == 2 {
        "NE"@
    } else if i == 3 {
        "ENE"@
    } else if i == 4 {
        "E"@
    } else if i == 5 {
        "ESE"@
    } else if i == 6 {
        "SE"@
    } else if i == 7 {
        "SSE"@
    } else if i == 8 {
        "S"@
    } else if i == 9 {
        "SSW"@
    } else if i == 10 {
        "SW"@
    } else if i == 11 {
        "WSW"@
    } else if i == 12 {
        "W"@
    } else if i == 13 {
        "WNW"@
    } else if i == 14 {
        "NW"@
    } else {
        "NNW"@
    }
}

/// The compass code of a heading in degrees.
pub open spec fn compass_of(d: Decimal) -> Seq<char> {
    compass_point(sector(d))
}

/// The sector number of a heading, computed without overflow.
pub fn sector_index(degrees: Decimal) -> (r: u64)
    requires
        degrees.wf(),
    ensures
        r == sector(degrees),
        r < 16,
{
    let p = pow10_exec(degrees.scale);
    let ghost pi = pow10(degrees.scale as nat) as int;
    proof {
        lemma_pow10_positive(degrees.scale as nat);
        lemma_pow10_bound(degrees.scale as nat);
    }
    let turn: u128 = 360 * (p as u128);
    let m = degrees.mantissa;
    let r: u128 = if m >= 0 {
        (m as u128) % turn
    } else {
        let s: u128 = ((-(m as i128)) as u128) % turn;
        proof {
            let x = -(m as int);
            lemma_fundamental_div_mod(x, turn as int);
            let q = x / (turn as int);
            let t = turn as int;
            assert(s as int == x % t);
            assert((-q) * t == -(q * t)) by (nonlinear_arith);
            assert((-q - 1) * t == -(q * t) - t) by (nonlinear_arith);
            if s == 0 {
                lemma_fundamental_div_mod_converse(m as int, turn as int, -q, 0);
            } else {
                lemma_fundamental_div_mod_converse(
                    m as int,
                    turn as int,
                    -q - 1,
                    turn - s,
                );
            }
        }
        if s == 0 {
            0
        } else {
            turn - s
        }
    };
    assert(r == (m as int) % (360 * pi));
    let idx = ((4 * r + 45 * (p as u128)) / (90 * (p as u128))) % 16;
    idx as u64
}

/// The code of sector `i`.
pub fn point_name(i: u64) -> (r: &'static str)
    requires
        i < 16,
    ensures
        r@ == compass_point(i as int),
{
    if i == 0 {
        "N"
    } else if i == 1 {
        "NNE"
    } else if i == 2 {
        "NE"
    } else if i == 3 {
        "ENE"
    } else if i == 4 {
        "E"
    } else if i == 5 {
        "ESE"
    } else if i == 6 {
        "SE"
    } else if i == 7 {
        "SSE"
    } else if i == 8 {
        "S"
    } else if i == 9 {
        "SSW"
    } else if i == 10 {
        "SW"
    } else if i == 11 {
        "WSW"
    } else if i == 12 {
        "W"
    } else if i == 13 {
        "WNW"
    } else if i == 14 {
        "NW"
    } else {
        "NNW"
    }
}

/// The compass code of a heading in degrees.
pub fn wind_direction_name(degrees: Decimal) -> (r: &'static str)
    requires
        degrees.wf(),
    ensures
        r@ == compass_of(degrees),
        is_compass_code(r@),
{
    point_name(sector_index(degrees))
}

/// Whether a text is one of the sixteen compass codes.
pub open spec fn is_compass_code(s: Seq<char>) -> bool {
    exists|i: int| 0 <= i < 16 && s == #[trigger] compass_point(i)
}

/// A text kept only if it is one of the sixteen compass codes.
pub open spec fn compass_code(s: Seq<char>) -> Option<Seq<char>> {
    if is_compass_code(s) {
        Some(s)
    } else {
        None
    }
}

/// Whether a text is one of the sixteen compass codes.
pub fn is_compass_code_exec(s: &Vec<char>) -> (r: bool)
    ensures
        r == is_compass_code(s@),
{
    let mut i: u64 = 0;
    while i < 16
        invariant
            i <= 16,
            forall|j: int| 0 <= j < i ==> s@ != #[trigger] compass_point(j),
        decreases 16 - i,
    {
        if crate::scan::is_text(s, point_name(i)) {
            return true;
        }
        i = i + 1;
    }
    false
}

} // verus!
