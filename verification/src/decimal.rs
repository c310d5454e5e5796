//! Decimal numbers with a 96-bit mantissa and up to 28 fractional digits.
//!
//! A [`Dec`] stands for `mantissa / 10^scale`. Multiplying by an integer,
//! taking the floor and rounding to an integer are exact and are done here
//! on the mantissa. Division is not exact in general: it is left to the
//! `rust_decimal` crate, and the quotient it gives is named
//! [`decimal_quotient`].

use vstd::prelude::*;

verus! {

/// Ten to the power `e`.
pub open spec fn pow10(e: nat) -> int
    decreases e,
{
    if e == 0 {
        1
    } else {
        10 * pow10((e - 1) as nat)
    }
}

/// The largest scale a decimal can have.
pub const MAX_SCALE: u32 = 28;

/// The mantissa of a decimal is smaller than this in absolute value: 2^96.
pub const MANTISSA_LIMIT: i128 = 0x1_0000_0000_0000_0000_0000_0000;

/// The mathematical value of a decimal: `mantissa / 10^scale`.
pub struct DecValue {
    pub mantissa: int,
    pub scale: nat,
}

impl DecValue {
    /// The value is greater than zero and at most one.
    pub open spec fn is_unit_fraction(self) -> bool {
        0 < self.mantissa <= pow10(self.scale)
    }

    /// The largest integer that is not above `b` times the value.
    pub open spec fn floor_times(self, b: int) -> int {
        (b * self.mantissa) / pow10(self.scale)
    }

    /// The value rounded to the nearest integer, a tie going to the even one.
    pub open spec fn round(self) -> int {
        round_half_even(self.mantissa, pow10(self.scale))
    }
}

/// `n / d` rounded to the nearest integer, a tie going to the even one.
pub open spec fn round_half_even(n: int, d: int) -> int
    recommends
        d > 0,
{
    let q = n / d;
    let r = n % d;
    if 2 * r < d {
        q
    } else if 2 * r > d {
        q + 1
    } else if q % 2 == 0 {
        q
    } else {
        q + 1
    }
}

/// A decimal number held as plain integers.
#[derive(Clone, Copy, Debug, PartialEq, Eq)]
pub struct Dec {
    pub mantissa: i128,
    pub scale: u32,
}

impl View for Dec {
    type V = DecValue;

    open spec fn view(&self) -> DecValue {
        DecValue { mantissa: self.mantissa as int, scale: self.scale as nat }
    }
}

impl Dec {
    /// The mantissa fits 96 bits and the scale is at most 28.
    pub open spec fn wf(&self) -> bool {
        &&& -MANTISSA_LIMIT < self.mantissa < MANTISSA_LIMIT
        &&& self.scale <= MAX_SCALE
    }

    /// The decimal that equals the integer `n`.
    pub fn from_i32(n: i32) -> (d: Dec)
        ensures
            d.wf(),
            d@ == (DecValue { mantissa: n as int, scale: 0 }),
    {
        Dec { mantissa: n as i128, scale: 0 }
    }

    /// `mantissa / 10^scale` for a mantissa and scale chosen by the caller.
    pub fn new(mantissa: i64, scale: u32) -> (d: Dec)
        requires
            scale <= MAX_SCALE,
        ensures
            d.wf(),
            d@ == (DecValue { mantissa: mantissa as int, scale: scale as nat }),
    {
        Dec { mantissa: mantissa as i128, scale }
    }

    /// Whether the value is greater than zero and at most one.
    pub fn is_unit_fraction(&self) -> (b: bool)
        requires
            self.wf(),
        ensures
            b == self@.is_unit_fraction(),
    {
        0 < self.mantissa && self.mantissa <= pow10_exec(self.scale)
    }

    /// The largest integer that is not above `b` times the value.
    pub fn floor_times(&self, b: i32) -> (f: i128)
        requires
            self.wf(),
        ensures
            f == self@.floor_times(b as int),
    {
        let p = pow10_exec(self.scale);
        proof {
            lemma_product_fits(b as int, self.mantissa as int);
        }
        div_floor((b as i128) * self.mantissa, p)
    }

    /// The value rounded to the nearest integer, a tie going to the even one.
    pub fn round(&self) -> (r: i128)
        requires
            self.wf(),
        ensures
            r == self@.round(),
    {
        round_half_even_exec(self.mantissa, pow10_exec(self.scale))
    }
}

/// The quotient that `rust_decimal` gives for `num / den`, or `None` where it
/// gives none (a zero divisor, a quotient too large to hold).
///
/// The crate carries a quotient to as many fractional digits as fit the
/// mantissa, at most 28, and rounds the last one. Nothing is said here of
/// the digits themselves.
pub uninterp spec fn decimal_quotient(num: DecValue, den: DecValue) -> Option<DecValue>;

/// `num / den` by `rust_decimal::Decimal::checked_div`.
///
/// Both operands are rebuilt from mantissa and scale with
/// `Decimal::from_i128_with_scale`, which accepts exactly the well-formed
/// ones, and the quotient is taken apart again with `Decimal::mantissa` and
/// `Decimal::scale`. Believed, not proved: the result is the crate's
/// quotient of the two values, and, like every `Decimal`, it has a mantissa
/// below 2^96 in size and a scale of at most 28.
#[verifier::external_body]
pub(crate) fn dec_div(num: Dec, den: Dec) -> (q: Option<Dec>)
    requires
        num.wf(),
        den.wf(),
    ensures
        decimal_quotient(num@, den@) == match q {
            Some(d) => Some(d@),
            None => None,
        },
        q matches Some(d) ==> d.wf(),
{
    let n = rust_decimal::Decimal::from_i128_with_scale(num.mantissa, num.scale);
    let d = rust_decimal::Decimal::from_i128_with_scale(den.mantissa, den.scale);
    match n.checked_div(d) {
        Some(q) => Some(Dec { mantissa: q.mantissa(), scale: q.scale() }),
        None => None,
    }
}

/// A product of a 32-bit and a 96-bit integer fits 128 bits.
pub proof fn lemma_product_fits(b: int, m: int)
    by (nonlinear_arith)
    requires
        -0x8000_0000 <= b <= 0x7fff_ffff,
        -0x1_0000_0000_0000_0000_0000_0000 < m < 0x1_0000_0000_0000_0000_0000_0000,
    ensures
        -0x8000_0000_0000_0000_0000_0000_0000_0000 < b * m
            < 0x8000_0000_0000_0000_0000_0000_0000_0000,
{
}

/// Powers of ten grow with the exponent, and the 28th is below 2^96.
pub proof fn lemma_pow10_bounds(e: nat)
    requires
        e <= 28,
    ensures
        1 <= pow10(e) <= pow10(28),
        pow10(28) == 10_000_000_000_000_000_000_000_000_000,
    decreases 28 - e,
{
    reveal_with_fuel(pow10, 30);
    if e < 28 {
        lemma_pow10_bounds(e + 1);
        assert(pow10(e + 1) == 10 * pow10(e));
    }
}

/// Ten to the power `e`, for a scale that a decimal can have.
pub fn pow10_exec(e: u32) -> (p: i128)
    requires
        e <= MAX_SCALE,
    ensures
        p == pow10(e as nat),
        1 <= p <= 10_000_000_000_000_000_000_000_000_000,
{
    let mut p: i128 = 1;
    let mut i: u32 = 0;
    proof {
        lemma_pow10_bounds(0);
    }
    while i < e
        invariant
            i <= e <= 28,
            p == pow10(i as nat),
            1 <= p <= pow10(28),
            pow10(28) == 10_000_000_000_000_000_000_000_000_000,
        decreases e - i,
    {
        proof {
            lemma_pow10_bounds((i + 1) as nat);
            assert(pow10((i + 1) as nat) == 10 * pow10(i as nat));
        }
        p = p * 10;
        i = i + 1;
    }
    p
}

/// Euclidean division has one quotient and one remainder.
pub proof fn lemma_div_unique(a: int, d: int, q: int, r: int)
    requires
        d > 0,
        a == d * q + r,
        0 <= r < d,
    ensures
        a / d == q,
        a % d == r,
{
    assert(d * q == q * d) by (nonlinear_arith);
    vstd::arithmetic::div_mod::lemma_fundamental_div_mod_converse(a, d, q, r);
}

/// The floor of `a / d` together with what is left over.
pub fn div_rem_floor(a: i128, d: i128) -> (qr: (i128, i128))
    requires
        d > 0,
    ensures
        qr.0 == a as int / d as int,
        qr.1 == a as int % d as int,
        0 <= qr.1 < d,
{
    if a >= 0 {
        let q: i128 = a / d;
        let r: i128 = a % d;
        (q, r)
    } else {
        let n: i128 = -(a + 1);
        let q: i128 = n / d;
        let r: i128 = n % d;
        proof {
            vstd::arithmetic::div_mod::lemma_fundamental_div_mod(n as int, d as int);
            vstd::arithmetic::div_mod::lemma_mod_bound(n as int, d as int);
            vstd::arithmetic::div_mod::lemma_div_pos_is_pos(n as int, d as int);
            assert(0 <= q <= n) by {
                vstd::arithmetic::div_mod::lemma_div_is_ordered_by_denominator(n as int, 1, d as int);
            }
            assert(d * (-q - 1) == -(d * q) - d) by (nonlinear_arith);
            lemma_div_unique(a as int, d as int, -q - 1, d - r - 1);
        }
        (-q - 1, d - r - 1)
    }
}

/// The largest integer that is not above `a / d`.
pub fn div_floor(a: i128, d: i128) -> (q: i128)
    requires
        d > 0,
    ensures
        q == a as int / d as int,
{
    div_rem_floor(a, d).0
}

/// `n / d` rounded to the nearest integer, a tie going to the even one.
pub fn round_half_even_exec(n: i128, d: i128) -> (r: i128)
    requires
        d > 0,
        -MANTISSA_LIMIT * 1024 < n < MANTISSA_LIMIT * 1024,
        d <= MANTISSA_LIMIT,
    ensures
        r == round_half_even(n as int, d as int),
{
    let (q, rem) = div_rem_floor(n, d);
    proof {
        vstd::arithmetic::div_mod::lemma_fundamental_div_mod(n as int, d as int);
        lemma_quotient_bound(n as int, d as int);
    }
    let twice: i128 = 2 * rem;
    if twice < d {
        q
    } else if twice > d {
        q + 1
    } else if q % 2 == 0 {
        q
    } else {
        q + 1
    }
}

/// A quotient by a positive divisor is no larger in size than the dividend.
pub proof fn lemma_quotient_bound(n: int, d: int)
    requires
        d > 0,
    ensures
        n >= 0 ==> 0 <= n / d <= n,
        n < 0 ==> n <= n / d < 0,
{
    vstd::arithmetic::div_mod::lemma_fundamental_div_mod(n, d);
    vstd::arithmetic::div_mod::lemma_mod_bound(n, d);
    let q = n / d;
    let r = n % d;
    if n >= 0 {
        assert(q >= 0 && q <= n) by (nonlinear_arith)
            requires
                n == d * q + r,
                0 <= r < d,
                d > 0,
                n >= 0,
        ;
    } else {
        assert(q < 0 && n <= q) by (nonlinear_arith)
            requires
                n == d * q + r,
                0 <= r < d,
                d > 0,
                n < 0,
        ;
    }
}

} // verus!
