use crate::text::{digit_value, is_digit};
use vstd::prelude::*;

verus! {

/// Ten to the power `n`.
pub open spec fn pow10(n: nat) -> nat
    decreases n,
{
    if n == 0 {
        1
    } else {
        10 * pow10((n - 1) as nat)
    }
}

/// The largest number of fractional digits a [`Decimal`] may carry.
pub const MAX_SCALE: u32 = 18;

/// A decimal number `mantissa / 10^scale`, as read from a station's text.
#[derive(Clone, Copy, Debug, PartialEq, Eq)]
pub struct Decimal {
    pub mantissa: i64,
    pub scale: u32,
}

pub proof fn lemma_pow10_positive(n: nat)
    ensures
        pow10(n) >= 1,
    decreases n,
{
    if n > 0 {
        lemma_pow10_positive((n - 1) as nat);
    }
}

pub proof fn lemma_pow10_bound(n: nat)
    requires
        n <= 18,
    ensures
        pow10(n) <= 1_000_000_000_000_000_000,
{
    reveal_with_fuel(pow10, 19);
    assert(pow10(18) == 1_000_000_000_000_000_000);
    lemma_pow10_monotone(n, 18);
}

pub proof fn lemma_pow10_monotone(a: nat, b: nat)
    requires
        a <= b,
    ensures
        pow10(a) <= pow10(b),
    decreases b,
{
    if a < b {
        lemma_pow10_monotone(a, (b - 1) as nat);
        lemma_pow10_positive((b - 1) as nat);
    }
}

/// `10^n` as a machine integer.
pub fn pow10_exec(n: u32) -> (r: u64)
    requires
        n <= MAX_SCALE,
    ensures
        r == pow10(n as nat),
{
    let mut r: u64 = 1;
    let mut i: u32 = 0;
    while i < n
        invariant
            i <= n <= MAX_SCALE,
            r == pow10(i as nat),
        decreases n - i,
    {
        proof {
            lemma_pow10_bound((i + 1) as nat);
        }
        r = r * 10;
        i = i + 1;
    }
    r
}

/// Mantissas stay below this bound, so that they fit an `i64` with room to spare.
pub const MANTISSA_LIMIT: u64 = 1_000_000_000_000_000_000;

/// The state of a left-to-right reading of the digits and point of a number.
pub struct DecimalScan {
    pub mantissa: int,
    pub scale: nat,
    pub digits: nat,
    pub dot: bool,
    pub ok: bool,
}

pub open spec fn scan_start() -> DecimalScan {
    DecimalScan { mantissa: 0, scale: 0, digits: 0, dot: false, ok: true }
}

/// One character of the reading: a digit, the one decimal point, or a fault.
pub open spec fn scan_step(st: DecimalScan, c: char) -> DecimalScan {
    if !st.ok {
        st
    } else if is_digit(c) {
        let m = st.mantissa * 10 + digit_value(c);
        let sc = if st.dot {
            st.scale + 1
        } else {
            st.scale
        };
        if m >= MANTISSA_LIMIT || sc > MAX_SCALE {
            DecimalScan { mantissa: st.mantissa, scale: st.scale, digits: st.digits, dot: st.dot, ok: false }
        } else {
            DecimalScan { mantissa: m, scale: sc, digits: st.digits + 1, dot: st.dot, ok: true }
        }
    } else if c == '.' && !st.dot {
        DecimalScan { mantissa: st.mantissa, scale: st.scale, digits: st.digits, dot: true, ok: true }
    } else {
        DecimalScan { mantissa: st.mantissa, scale: st.scale, digits: st.digits, dot: st.dot, ok: false }
    }
}

pub open spec fn scan(s: Seq<char>) -> DecimalScan
    decreases s.len(),
{
    if s.len() == 0 {
        scan_start()
    } else {
        scan_step(scan(s.drop_last()), s.last())
    }
}

pub open spec fn has_sign(s: Seq<char>) -> bool {
    s.len() > 0 && (s[0] == '-' || s[0] == '+')
}

/// The decimal number that `s` spells: an optional sign, digits with at most one
/// decimal point among or around them, at least one digit, under
/// [`MANTISSA_LIMIT`] and [`MAX_SCALE`]. Narrower than `f64`'s `FromStr`: an
/// exponent (`1e3`), `inf` and `NaN` are not read, nor a mantissa of
/// [`MANTISSA_LIMIT`] or more, nor more than [`MAX_SCALE`] decimal places; such a
/// text counts as unreadable.
pub open spec fn decimal_of(s: Seq<char>) -> Option<Decimal> {
    let negative = s.len() > 0 && s[0] == '-';
    let body = if has_sign(s) {
        s.drop_first()
    } else {
        s
    };
    let st = scan(body);
    if st.ok && st.digits > 0 {
        Some(
            Decimal {
                mantissa: (if negative {
                    -st.mantissa
                } else {
                    st.mantissa
                }) as i64,
                scale: st.scale as u32,
            },
        )
    } else {
        None
    }
}

impl Decimal {
    pub open spec fn wf(self) -> bool {
        self.scale <= MAX_SCALE
    }

    /// A whole number.
    pub fn from_int(v: i64) -> (r: Decimal)
        ensures
            r == (Decimal { mantissa: v, scale: 0 }),
            r.wf(),
    {
        Decimal { mantissa: v, scale: 0 }
    }
}

proof fn lemma_scan_bounds(s: Seq<char>)
    ensures
        0 <= scan(s).mantissa < MANTISSA_LIMIT,
        scan(s).scale <= MAX_SCALE,
    decreases s.len(),
{
    if s.len() > 0 {
        lemma_scan_bounds(s.drop_last());
    }
}

/// Reads a decimal number such as `-3.25`.
pub fn parse_decimal(s: &Vec<char>) -> (r: Option<Decimal>)
    ensures
        r == decimal_of(s@),
        r matches Some(d) ==> d.wf(),
{
    let n = s.len();
    let negative = n > 0 && s[0] == '-';
    let start: usize = if n > 0 && (s[0] == '-' || s[0] == '+') {
        1
    } else {
        0
    };
    let ghost body = s@.subrange(start as int, n as int);
    assert(body =~= (if has_sign(s@) {
        s@.drop_first()
    } else {
        s@
    }));
    let mut mantissa: i64 = 0;
    let mut scale: u32 = 0;
    let mut digits: usize = 0;
    let mut dot = false;
    let mut i: usize = start;
    assert(body.subrange(0, 0) =~= Seq::<char>::empty());
    while i < n
        invariant
            start <= i <= n == s@.len(),
            body == s@.subrange(start as int, n as int),
            body == (if has_sign(s@) {
                s@.drop_first()
            } else {
                s@
            }),
            negative == (s@.len() > 0 && s@[0] == '-'),
            scan(body.subrange(0, i - start)) == (DecimalScan {
                mantissa: mantissa as int,
                scale: scale as nat,
                digits: digits as nat,
                dot: dot,
                ok: true,
            }),
            0 <= mantissa < MANTISSA_LIMIT,
            scale <= MAX_SCALE,
            digits <= i,
        decreases n - i,
    {
        let c = s[i];
        let ghost prev = body.subrange(0, i - start);
        assert(body.subrange(0, i + 1 - start).drop_last() =~= prev);
        assert(body.subrange(0, i + 1 - start).last() == c);
        if '0' <= c && c <= '9' {
            let d = (c as u32 - '0' as u32) as i64;
            let new_scale = if dot {
                scale + 1
            } else {
                scale
            };
            if mantissa >= (MANTISSA_LIMIT as i64 - d) / 10 + (if (MANTISSA_LIMIT as i64 - d) % 10
                == 0 {
                0
            } else {
                1
            }) || new_scale > MAX_SCALE {
                proof {
                    assert(mantissa * 10 + d >= MANTISSA_LIMIT || new_scale > MAX_SCALE)
                        by (nonlinear_arith)
                        requires
                            mantissa >= (MANTISSA_LIMIT - d) / 10 + (if (MANTISSA_LIMIT - d) % 10
                                == 0 {
                                0int
                            } else {
                                1int
                            }) || new_scale > MAX_SCALE,
                            0 <= d <= 9,
                    ;
                    lemma_scan_fails_on(body, i + 1 - start);
                }
                return None;
            }
            assert(mantissa * 10 + d < MANTISSA_LIMIT) by (nonlinear_arith)
                requires
                    mantissa < (MANTISSA_LIMIT - d) / 10 + (if (MANTISSA_LIMIT - d) % 10 == 0 {
                        0int
                    } else {
                        1int
                    }),
                    0 <= d <= 9,
            ;
            mantissa = mantissa * 10 + d;
            scale = new_scale;
            digits = digits + 1;
        } else if c == '.' && !dot {
            dot = true;
        } else {
            proof {
                lemma_scan_fails_on(body, i + 1 - start);
            }
            return None;
        }
        i = i + 1;
    }
    assert(body.subrange(0, n - start) =~= body);
    if digits == 0 {
        return None;
    }
    let m = if negative {
        -mantissa
    } else {
        mantissa
    };
    Some(Decimal { mantissa: m, scale })
}

/// Once a reading has failed, the rest of the text cannot mend it.
proof fn lemma_scan_fails_on(s: Seq<char>, k: int)
    requires
        0 <= k <= s.len(),
        !scan(s.subrange(0, k)).ok,
    ensures
        !scan(s).ok,
    decreases s.len() - k,
{
    if k < s.len() {
        assert(s.subrange(0, k + 1).drop_last() =~= s.subrange(0, k));
        lemma_scan_fails_on(s, k + 1);
    } else {
        assert(s.subrange(0, k) =~= s);
    }
}

/// What rounding half away from zero and then saturating into an unsigned
/// integer gives: negative readings count as zero.
pub open spec fn rounded(d: Decimal) -> nat {
    let p = pow10(d.scale as nat) as int;
    if d.mantissa <= 0 {
        0
    } else {
        ((2 * d.mantissa + p) / (2 * p)) as nat
    }
}

/// Rounds to the nearest whole number, halves away from zero; below zero gives zero.
pub fn round_to_u64(d: Decimal) -> (r: u64)
    requires
        d.wf(),
    ensures
        r == rounded(d),
{
    let p = pow10_exec(d.scale);
    proof {
        lemma_pow10_positive(d.scale as nat);
        lemma_pow10_bound(d.scale as nat);
    }
    if d.mantissa <= 0 {
        0
    } else {
        let m = d.mantissa as u128;
        let q = (2 * m + p as u128) / (2 * p as u128);
        assert(q <= 2 * m + p) by (nonlinear_arith)
            requires
                q == (2 * m + p) / (2 * p as int),
                p >= 1,
                m >= 0,
        ;
        assert(q <= u64::MAX) by (nonlinear_arith)
            requires
                q == (2 * m + p) / (2 * p as int),
                p >= 1,
                m <= i64::MAX,
                p <= 1_000_000_000_000_000_000,
        ;
        q as u64
    }
}

/// Rounding lands on the whole number nearest to the reading: a positive reading
/// `m / 10^s` is within half a unit of the result.
pub proof fn lemma_rounding_is_nearest(d: Decimal)
    requires
        d.wf(),
        d.mantissa > 0,
    ensures
        -(pow10(d.scale as nat) as int) <= 2 * (d.mantissa as int) - 2 * (rounded(d) as int) * (
        pow10(d.scale as nat) as int) < pow10(d.scale as nat) as int,
{
    let p = pow10(d.scale as nat) as int;
    lemma_pow10_positive(d.scale as nat);
    let m = d.mantissa as int;
    let q = (2 * m + p) / (2 * p);
    assert(rounded(d) == q);
    vstd::arithmetic::div_mod::lemma_fundamental_div_mod(2 * m + p, 2 * p);
    let r = (2 * m + p) % (2 * p);
    assert(0 <= r < 2 * p);
    assert(2 * m + p == (2 * p) * q + r);
    assert(2 * m - 2 * q * p == r - p) by (nonlinear_arith)
        requires
            2 * m + p == (2 * p) * q + r,
    ;
}

} // verus!
