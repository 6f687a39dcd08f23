//! Deterministic fixed-point numbers.
//!
//! A value is stored as an `i64` count of billionths (nine decimal digits of
//! fraction), together with the special values that arithmetic edge cases
//! produce: division by zero yields an infinity, zero divided by zero or an
//! overflowing magnitude yields `Nan`.  Every operation rounds half away from
//! zero at the ninth fractional digit, so results are bit-for-bit reproducible
//! wherever they are computed.

use vstd::prelude::*;

verus! {

/// Number of fractional units per 1: a mantissa counts billionths.
pub const SCALE: i64 = 1_000_000_000;

/// A fixed-point number: nine decimal digits of fraction in an `i64`
/// mantissa, or one of the special values arithmetic edge cases produce.
#[derive(Clone, Copy, PartialEq, Eq, Structural, Debug)]
pub enum Num {
    Nan,
    NegInf,
    PosInf,
    Fin(i64),
}

/// A finite number from a mantissa when it fits, the signed infinity
/// otherwise.
pub open spec fn clamp_fin(x: int) -> Num {
    if x > i64::MAX {
        Num::PosInf
    } else if x < i64::MIN {
        Num::NegInf
    } else {
        Num::Fin(x as i64)
    }
}

pub open spec fn abs_int(x: int) -> int {
    if x < 0 {
        -x
    } else {
        x
    }
}

/// Division that rounds half away from zero; `round_div(7, 2) == 4`,
/// `round_div(-7, 2) == -4`.
pub open spec fn round_div(p: int, q: int) -> int
    recommends
        q != 0,
{
    let ap = abs_int(p);
    let aq = abs_int(q);
    if (p < 0) != (q < 0) {
        -((ap + aq / 2) / aq)
    } else {
        (ap + aq / 2) / aq
    }
}

/// Sum with the usual special-value rules: `Nan` is absorbing, opposite
/// infinities cancel to `Nan`, and a finite overflow lands on an infinity.
pub open spec fn spec_add(a: Num, b: Num) -> Num {
    match (a, b) {
        (Num::Nan, _) => Num::Nan,
        (_, Num::Nan) => Num::Nan,
        (Num::PosInf, Num::NegInf) => Num::Nan,
        (Num::NegInf, Num::PosInf) => Num::Nan,
        (Num::PosInf, _) => Num::PosInf,
        (_, Num::PosInf) => Num::PosInf,
        (Num::NegInf, _) => Num::NegInf,
        (_, Num::NegInf) => Num::NegInf,
        (Num::Fin(x), Num::Fin(y)) => clamp_fin(x + y),
    }
}

pub open spec fn spec_sub(a: Num, b: Num) -> Num {
    match (a, b) {
        (Num::Nan, _) => Num::Nan,
        (_, Num::Nan) => Num::Nan,
        (Num::PosInf, Num::PosInf) => Num::Nan,
        (Num::NegInf, Num::NegInf) => Num::Nan,
        (Num::PosInf, _) => Num::PosInf,
        (Num::NegInf, _) => Num::NegInf,
        (_, Num::PosInf) => Num::NegInf,
        (_, Num::NegInf) => Num::PosInf,
        (Num::Fin(x), Num::Fin(y)) => clamp_fin(x - y),
    }
}

/// Product of mantissas rescaled by `SCALE`, rounding half away from zero.
pub open spec fn spec_mul(a: Num, b: Num) -> Num {
    match (a, b) {
        (Num::Nan, _) => Num::Nan,
        (_, Num::Nan) => Num::Nan,
        (Num::PosInf, Num::PosInf) => Num::PosInf,
        (Num::NegInf, Num::NegInf) => Num::PosInf,
        (Num::PosInf, Num::NegInf) => Num::NegInf,
        (Num::NegInf, Num::PosInf) => Num::NegInf,
        (Num::PosInf, Num::Fin(y)) => inf_times_fin(false, y),
        (Num::Fin(x), Num::PosInf) => inf_times_fin(false, x),
        (Num::NegInf, Num::Fin(y)) => inf_times_fin(true, y),
        (Num::Fin(x), Num::NegInf) => inf_times_fin(true, x),
        (Num::Fin(x), Num::Fin(y)) => clamp_fin(round_div(x * y, SCALE as int)),
    }
}

/// An infinity times a finite value: `Nan` for zero, otherwise the infinity
/// whose sign is the product of the signs.
pub open spec fn inf_times_fin(inf_negative: bool, y: i64) -> Num {
    if y == 0 {
        Num::Nan
    } else if (y < 0) == inf_negative {
        Num::PosInf
    } else {
        Num::NegInf
    }
}

/// Quotient of values: mantissa of `a` rescaled by `SCALE` and divided by the
/// mantissa of `b`, rounding half away from zero.  A nonzero value divided by
/// zero is the signed infinity; zero divided by zero is `Nan`.
pub open spec fn spec_div(a: Num, b: Num) -> Num {
    match (a, b) {
        (Num::Nan, _) => Num::Nan,
        (_, Num::Nan) => Num::Nan,
        (Num::PosInf, Num::PosInf) => Num::Nan,
        (Num::PosInf, Num::NegInf) => Num::Nan,
        (Num::NegInf, Num::PosInf) => Num::Nan,
        (Num::NegInf, Num::NegInf) => Num::Nan,
        (Num::PosInf, Num::Fin(y)) => if y >= 0 {
            Num::PosInf
        } else {
            Num::NegInf
        },
        (Num::NegInf, Num::Fin(y)) => if y >= 0 {
            Num::NegInf
        } else {
            Num::PosInf
        },
        (Num::Fin(_), Num::PosInf) => Num::Fin(0),
        (Num::Fin(_), Num::NegInf) => Num::Fin(0),
        (Num::Fin(x), Num::Fin(y)) => if y == 0 {
            if x == 0 {
                Num::Nan
            } else if x > 0 {
                Num::PosInf
            } else {
                Num::NegInf
            }
        } else {
            clamp_fin(round_div(x * (SCALE as int), y as int))
        },
    }
}

/// Clamps an `i128` intermediate to the representable mantissa range.
pub fn clamp_i128(x: i128) -> (r: Num)
    ensures
        r == clamp_fin(x as int),
{
    if x > i64::MAX as i128 {
        Num::PosInf
    } else if x < i64::MIN as i128 {
        Num::NegInf
    } else {
        Num::Fin(x as i64)
    }
}

/// Round-half-away-from-zero division of `i128` intermediates.
fn round_div_i128(p: i128, q: i128) -> (r: i128)
    requires
        q != 0,
        -0x4000_0000_0000_0000_0000_0000_0000_0000 <= p
            <= 0x4000_0000_0000_0000_0000_0000_0000_0000,
        -0x4000_0000_0000_0000_0000_0000_0000_0000 <= q
            <= 0x4000_0000_0000_0000_0000_0000_0000_0000,
    ensures
        r == round_div(p as int, q as int),
        abs_int(r as int) <= abs_int(p as int),
{
    let ap: i128 = if p < 0 {
        -p
    } else {
        p
    };
    let aq: i128 = if q < 0 {
        -q
    } else {
        q
    };
    let m: i128 = (ap + aq / 2) / aq;
    proof {
        assert(m <= ap) by (nonlinear_arith)
            requires
                aq >= 1,
                ap >= 0,
                m as int == (ap as int + (aq as int) / 2) / (aq as int),
        ;
    }
    if (p < 0) != (q < 0) {
        -m
    } else {
        m
    }
}

impl Num {
    pub fn add(self, other: Num) -> (r: Num)
        ensures
            r == spec_add(self, other),
    {
        match (self, other) {
            (Num::Nan, _) => Num::Nan,
            (_, Num::Nan) => Num::Nan,
            (Num::PosInf, Num::NegInf) => Num::Nan,
            (Num::NegInf, Num::PosInf) => Num::Nan,
            (Num::PosInf, _) => Num::PosInf,
            (_, Num::PosInf) => Num::PosInf,
            (Num::NegInf, _) => Num::NegInf,
            (_, Num::NegInf) => Num::NegInf,
            (Num::Fin(x), Num::Fin(y)) => clamp_i128(x as i128 + y as i128),
        }
    }

    pub fn sub(self, other: Num) -> (r: Num)
        ensures
            r == spec_sub(self, other),
    {
        match (self, other) {
            (Num::Nan, _) => Num::Nan,
            (_, Num::Nan) => Num::Nan,
            (Num::PosInf, Num::PosInf) => Num::Nan,
            (Num::NegInf, Num::NegInf) => Num::Nan,
            (Num::PosInf, _) => Num::PosInf,
            (Num::NegInf, _) => Num::NegInf,
            (_, Num::PosInf) => Num::NegInf,
            (_, Num::NegInf) => Num::PosInf,
            (Num::Fin(x), Num::Fin(y)) => clamp_i128(x as i128 - y as i128),
        }
    }

    pub fn mul(self, other: Num) -> (r: Num)
        ensures
            r == spec_mul(self, other),
    {
        match (self, other) {
            (Num::Nan, _) => Num::Nan,
            (_, Num::Nan) => Num::Nan,
            (Num::PosInf, Num::PosInf) => Num::PosInf,
            (Num::NegInf, Num::NegInf) => Num::PosInf,
            (Num::PosInf, Num::NegInf) => Num::NegInf,
            (Num::NegInf, Num::PosInf) => Num::NegInf,
            (Num::PosInf, Num::Fin(y)) => inf_times_fin_exec(false, y),
            (Num::Fin(x), Num::PosInf) => inf_times_fin_exec(false, x),
            (Num::NegInf, Num::Fin(y)) => inf_times_fin_exec(true, y),
            (Num::Fin(x), Num::NegInf) => inf_times_fin_exec(true, x),
            (Num::Fin(x), Num::Fin(y)) => {
                proof {
                    assert(-0x4000_0000_0000_0000_0000_0000_0000_0000 <= (x as int) * (y as int)
                        <= 0x4000_0000_0000_0000_0000_0000_0000_0000) by (nonlinear_arith)
                        requires
                            -0x8000_0000_0000_0000 <= x <= 0x7fff_ffff_ffff_ffff,
                            -0x8000_0000_0000_0000 <= y <= 0x7fff_ffff_ffff_ffff,
                    ;
                }
                let p: i128 = (x as i128) * (y as i128);
                let m = round_div_i128(p, SCALE as i128);
                clamp_i128(m)
            },
        }
    }

    pub fn div(self, other: Num) -> (r: Num)
        ensures
            r == spec_div(self, other),
    {
        match (self, other) {
            (Num::Nan, _) => Num::Nan,
            (_, Num::Nan) => Num::Nan,
            (Num::PosInf, Num::PosInf) => Num::Nan,
            (Num::PosInf, Num::NegInf) => Num::Nan,
            (Num::NegInf, Num::PosInf) => Num::Nan,
            (Num::NegInf, Num::NegInf) => Num::Nan,
            (Num::PosInf, Num::Fin(y)) => if y >= 0 {
                Num::PosInf
            } else {
                Num::NegInf
            },
            (Num::NegInf, Num::Fin(y)) => if y >= 0 {
                Num::NegInf
            } else {
                Num::PosInf
            },
            (Num::Fin(_), Num::PosInf) => Num::Fin(0),
            (Num::Fin(_), Num::NegInf) => Num::Fin(0),
            (Num::Fin(x), Num::Fin(y)) => {
                if y == 0 {
                    if x == 0 {
                        Num::Nan
                    } else if x > 0 {
                        Num::PosInf
                    } else {
                        Num::NegInf
                    }
                } else {
                    let p: i128 = (x as i128) * (SCALE as i128);
                    let m = round_div_i128(p, y as i128);
                    clamp_i128(m)
                }
            },
        }
    }
}

fn inf_times_fin_exec(inf_negative: bool, y: i64) -> (r: Num)
    ensures
        r == inf_times_fin(inf_negative, y),
{
    if y == 0 {
        Num::Nan
    } else if (y < 0) == inf_negative {
        Num::PosInf
    } else {
        Num::NegInf
    }
}

/// Integer square root: the floor of the real square root.
pub open spec fn isqrt(n: nat) -> nat
    decreases n,
{
    if n == 0 {
        0
    } else {
        let r = isqrt((n - 1) as nat);
        if (r + 1) * (r + 1) <= n {
            r + 1
        } else {
            r
        }
    }
}

pub proof fn lemma_isqrt_bounds(n: nat)
    ensures
        isqrt(n) * isqrt(n) <= n,
        n < (isqrt(n) + 1) * (isqrt(n) + 1),
    decreases n,
{
    if n == 0 {
        assert(isqrt(0) == 0);
        assert(0 < (0 + 1) * (0 + 1)) by (nonlinear_arith);
    } else {
        lemma_isqrt_bounds((n - 1) as nat);
        let r = isqrt((n - 1) as nat);
        if (r + 1) * (r + 1) <= n {
            assert(isqrt(n) == r + 1);
            assert((r + 1) * (r + 1) < (r + 1 + 1) * (r + 1 + 1)) by (nonlinear_arith);
            assert(n <= (r + 1) * (r + 1));
        } else {
            assert(isqrt(n) == r);
        }
    }
}

pub proof fn lemma_isqrt_unique(n: nat, r: nat)
    requires
        r * r <= n,
        n < (r + 1) * (r + 1),
    ensures
        r == isqrt(n),
{
    lemma_isqrt_bounds(n);
    let s = isqrt(n);
    if r < s {
        assert((r + 1) * (r + 1) <= s * s) by (nonlinear_arith)
            requires
                r + 1 <= s,
        ;
    }
    if s < r {
        assert((s + 1) * (s + 1) <= r * r) by (nonlinear_arith)
            requires
                s + 1 <= r,
        ;
    }
}

/// Binary search for the integer square root of a widened mantissa.
fn isqrt_u128(n: u128) -> (r: u128)
    requires
        n <= 0x4000_0000_0000_0000_0000_0000,
    ensures
        r as nat == isqrt(n as nat),
        r <= 0x1_0000_0000_0000,
{
    let mut lo: u128 = 0;
    let mut hi: u128 = 0x1_0000_0000_0000;
    while hi - lo > 1
        invariant
            lo < hi,
            hi <= 0x1_0000_0000_0000,
            (lo as nat) * (lo as nat) <= n as nat,
            (n as nat) < (hi as nat) * (hi as nat),
        decreases hi - lo,
    {
        let mid: u128 = lo + (hi - lo) / 2;
        proof {
            assert((mid as int) * (mid as int) <= 0x1_0000_0000_0000_0000_0000_0000)
                by (nonlinear_arith)
                requires
                    0 <= mid <= 0x1_0000_0000_0000,
            ;
        }
        let sq: u128 = mid * mid;
        if sq <= n {
            lo = mid;
        } else {
            hi = mid;
        }
    }
    proof {
        lemma_isqrt_unique(n as nat, lo as nat);
    }
    lo
}

/// Floor square root rescaled by `SCALE`; negative inputs give `Nan` and
/// `PosInf` passes through, as the real square root would behave.
pub open spec fn spec_sqrt(a: Num) -> Num {
    match a {
        Num::Nan => Num::Nan,
        Num::NegInf => Num::Nan,
        Num::PosInf => Num::PosInf,
        Num::Fin(m) => if m < 0 {
            Num::Nan
        } else {
            clamp_fin(isqrt((m * (SCALE as int)) as nat) as int)
        },
    }
}

/// Clamp of a filter-argument value to a digit count between 0 and 9.
pub open spec fn spec_digit_count(d: Num) -> int {
    match d {
        Num::Nan => 0,
        Num::NegInf => 0,
        Num::PosInf => 9,
        Num::Fin(m) => if m <= 0 {
            0
        } else if (m as int) / (SCALE as int) >= 9 {
            9
        } else {
            (m as int) / (SCALE as int)
        },
    }
}

pub open spec fn pow10(k: nat) -> nat
    decreases k,
{
    if k == 0 {
        1
    } else {
        10 * pow10((k - 1) as nat)
    }
}

pub proof fn lemma_pow10_pos(k: nat)
    ensures
        pow10(k) >= 1,
    decreases k,
{
    if k > 0 {
        lemma_pow10_pos((k - 1) as nat);
    }
}

pub proof fn lemma_pow10_mono(a: nat, b: nat)
    requires
        a <= b,
    ensures
        pow10(a) <= pow10(b),
    decreases b,
{
    if a < b {
        lemma_pow10_mono(a, (b - 1) as nat);
        lemma_pow10_pos((b - 1) as nat);
    }
}

pub proof fn lemma_pow10_add(a: nat, b: nat)
    ensures
        pow10(a + b) == pow10(a) * pow10(b),
    decreases a,
{
    if a == 0 {
        assert(pow10(b) == 1 * pow10(b));
    } else {
        lemma_pow10_add((a - 1) as nat, b);
        assert(pow10(a) * pow10(b) == 10 * (pow10((a - 1) as nat) * pow10(b)))
            by (nonlinear_arith)
            requires
                pow10(a) == 10 * pow10((a - 1) as nat),
        ;
        assert((a - 1) as nat + b == (a + b - 1) as nat);
    }
}

/// Rounding to `d` decimal digits: the mantissa is divided by the matching
/// power of ten, rounded half away from zero, and scaled back.
pub open spec fn spec_round(x: Num, d: Num) -> Num {
    match x {
        Num::Nan => Num::Nan,
        Num::NegInf => Num::NegInf,
        Num::PosInf => Num::PosInf,
        Num::Fin(m) => {
            let f = pow10((9 - spec_digit_count(d)) as nat) as int;
            clamp_fin(round_div(m as int, f) * f)
        },
    }
}

fn digit_count(d: Num) -> (k: u32)
    ensures
        k as int == spec_digit_count(d),
        k <= 9,
{
    match d {
        Num::Nan => 0,
        Num::NegInf => 0,
        Num::PosInf => 9,
        Num::Fin(m) => if m <= 0 {
            0
        } else {
            let q = m / SCALE;
            if q >= 9 {
                9
            } else {
                q as u32
            }
        },
    }
}

pub fn pow10_small(k: u32) -> (r: i64)
    requires
        k <= 9,
    ensures
        r as nat == pow10(k as nat),
        1 <= r <= 1_000_000_000,
{
    let r: i64 = if k == 0 {
        1
    } else if k == 1 {
        10
    } else if k == 2 {
        100
    } else if k == 3 {
        1_000
    } else if k == 4 {
        10_000
    } else if k == 5 {
        100_000
    } else if k == 6 {
        1_000_000
    } else if k == 7 {
        10_000_000
    } else if k == 8 {
        100_000_000
    } else {
        1_000_000_000
    };
    proof {
        reveal_with_fuel(pow10, 10);
    }
    r
}

impl Num {
    /// Floor square root, rescaled so that `sqrt` of a value is the value's
    /// real square root truncated at the ninth fractional digit.
    pub fn sqrt(self) -> (r: Num)
        ensures
            r == spec_sqrt(self),
    {
        match self {
            Num::Nan => Num::Nan,
            Num::NegInf => Num::Nan,
            Num::PosInf => Num::PosInf,
            Num::Fin(m) => {
                if m < 0 {
                    Num::Nan
                } else {
                    let p: u128 = (m as u128) * (SCALE as u128);
                    let r = isqrt_u128(p);
                    proof {
                        lemma_isqrt_bounds(p as nat);
                    }
                    Num::Fin(r as i64)
                }
            },
        }
    }

    /// Rounds to the digit count named by `digits`, half away from zero.
    pub fn round_at(self, digits: Num) -> (r: Num)
        ensures
            r == spec_round(self, digits),
    {
        match self {
            Num::Nan => Num::Nan,
            Num::NegInf => Num::NegInf,
            Num::PosInf => Num::PosInf,
            Num::Fin(m) => {
                let k = digit_count(digits);
                let f = pow10_small(9 - k);
                let q = round_div_i128(m as i128, f as i128);
                proof {
                    assert(q * (f as i128) <= 0x8000_0000_0000_0000_0000_0000
                        && q * (f as i128) >= -0x8000_0000_0000_0000_0000_0000)
                        by (nonlinear_arith)
                        requires
                            -0x8000_0000_0000_0000 <= q <= 0x8000_0000_0000_0000,
                            1 <= f <= 1_000_000_000,
                    ;
                }
                clamp_i128(q * (f as i128))
            },
        }
    }
}

/// Decimal digits of a natural number, most significant first.
pub open spec fn dec_digits(n: nat) -> Seq<u8>
    decreases n,
{
    if n < 10 {
        seq![(48 + n) as u8]
    } else {
        dec_digits(n / 10) + seq![(48 + n % 10) as u8]
    }
}

/// Exactly `w` decimal digits of `n`, zero padded on the left.
pub open spec fn fixed_digits(n: nat, w: nat) -> Seq<u8>
    decreases w,
{
    if w == 0 {
        Seq::empty()
    } else {
        fixed_digits(n / 10, (w - 1) as nat) + seq![(48 + n % 10) as u8]
    }
}

/// Drops trailing zero digits.
pub open spec fn strip_zeros(s: Seq<u8>) -> Seq<u8>
    decreases s.len(),
{
    if s.len() > 0 && s.last() == 48u8 {
        strip_zeros(s.drop_last())
    } else {
        s
    }
}

/// Decimal text of a mantissa: optional minus sign, integer digits, then a
/// point and the fractional digits with trailing zeros stripped, omitted
/// entirely when the fraction is zero.
pub open spec fn fmt_mantissa(m: int) -> Seq<u8> {
    let a = abs_int(m) as nat;
    let sign: Seq<u8> = if m < 0 {
        seq![45u8]
    } else {
        Seq::empty()
    };
    let ip = a / (SCALE as nat);
    let fp = a % (SCALE as nat);
    if fp == 0 {
        sign + dec_digits(ip)
    } else {
        sign + dec_digits(ip) + seq![46u8] + strip_zeros(fixed_digits(fp, 9))
    }
}

/// The rendered text of a number.
pub open spec fn spec_fmt(n: Num) -> Seq<u8> {
    match n {
        Num::Nan => seq![78u8, 97u8, 78u8],
        Num::PosInf => seq![105u8, 110u8, 102u8],
        Num::NegInf => seq![45u8, 105u8, 110u8, 102u8],
        Num::Fin(m) => fmt_mantissa(m as int),
    }
}

fn push_dec(out: &mut Vec<u8>, n: u64)
    ensures
        final(out)@ == old(out)@ + dec_digits(n as nat),
    decreases n,
{
    if n < 10 {
        out.push((48 + n) as u8);
        assert(out@ =~= old(out)@ + dec_digits(n as nat));
    } else {
        push_dec(out, n / 10);
        out.push(48 + (n % 10) as u8);
        assert(out@ =~= old(out)@ + dec_digits(n as nat));
    }
}

fn push_fixed(out: &mut Vec<u8>, n: u64, w: u64)
    ensures
        final(out)@ == old(out)@ + fixed_digits(n as nat, w as nat),
    decreases w,
{
    if w == 0 {
        assert(out@ =~= old(out)@ + fixed_digits(n as nat, 0));
    } else {
        push_fixed(out, n / 10, w - 1);
        out.push(48 + (n % 10) as u8);
        assert(out@ =~= old(out)@ + fixed_digits(n as nat, w as nat));
    }
}

impl Num {
    /// Appends the rendered text of this number to `out`.
    pub fn fmt_push(self, out: &mut Vec<u8>)
        ensures
            final(out)@ == old(out)@ + spec_fmt(self),
    {
        match self {
            Num::Nan => {
                out.push(78);
                out.push(97);
                out.push(78);
                assert(out@ =~= old(out)@ + spec_fmt(self));
            },
            Num::PosInf => {
                out.push(105);
                out.push(110);
                out.push(102);
                assert(out@ =~= old(out)@ + spec_fmt(self));
            },
            Num::NegInf => {
                out.push(45);
                out.push(105);
                out.push(110);
                out.push(102);
                assert(out@ =~= old(out)@ + spec_fmt(self));
            },
            Num::Fin(m) => {
                let a: u64 = if m < 0 {
                    (-(m as i128)) as u64
                } else {
                    m as u64
                };
                if m < 0 {
                    out.push(45);
                }
                let ip = a / (SCALE as u64);
                let fp = a % (SCALE as u64);
                push_dec(out, ip);
                if fp > 0 {
                    out.push(46);
                    let mut frac: Vec<u8> = Vec::new();
                    push_fixed(&mut frac, fp, 9);
                    while frac.len() > 0 && frac[frac.len() - 1] == 48
                        invariant
                            strip_zeros(frac@) == strip_zeros(fixed_digits(fp as nat, 9)),
                        decreases frac.len(),
                    {
                        frac.pop();
                    }
                    assert(strip_zeros(frac@) == frac@);
                    out.append(&mut frac);
                    assert(out@ =~= old(out)@ + fmt_mantissa(m as int));
                } else {
                    assert(out@ =~= old(out)@ + fmt_mantissa(m as int));
                }
            },
        }
    }
}

} // verus!
