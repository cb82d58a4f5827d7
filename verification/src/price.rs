//! Money amounts. A price is a decimal number held as an integer mantissa and
//! a scale (the number of digits after the point), the way `rust_decimal`
//! holds it; the arithmetic and the text come from `rust_decimal` itself.

use vstd::prelude::*;
use crate::text::nat_digits;

verus! {

/// The largest magnitude of a mantissa: 2^96 - 1.
pub open spec fn max_mantissa() -> int {
    79228162514264337593543950335
}

/// The largest scale.
pub open spec fn max_scale() -> int {
    28
}

/// A decimal amount `mantissa / 10^scale`.
#[derive(Clone, Copy, Debug)]
pub struct Price {
    pub mantissa: i128,
    pub scale: u32,
}

impl Price {
    /// A mantissa of at most 96 bits and a scale of at most 28, as every
    /// `rust_decimal::Decimal` has.
    pub open spec fn wf(self) -> bool {
        &&& -max_mantissa() <= self.mantissa <= max_mantissa()
        &&& self.scale <= max_scale()
    }

    /// The price `mantissa / 10^scale`.
    pub fn new(mantissa: i128, scale: u32) -> (res: Price)
        requires
            -max_mantissa() <= mantissa <= max_mantissa(),
            scale <= max_scale(),
        ensures
            res.mantissa == mantissa,
            res.scale == scale,
            res.wf(),
    {
        Price { mantissa, scale }
    }
}

/// `n` zeros.
pub open spec fn zeros(n: nat) -> Seq<char> {
    Seq::new(n, |i: int| '0')
}

/// How `rust_decimal` writes `mantissa / 10^scale` with `prec` digits after
/// the point (`{}` is `prec == scale`, `{:.2}` is `prec == 2`): a minus sign
/// for a negative mantissa; the whole part ("0" when it is empty); then, when
/// `prec > 0`, a point and the first `prec` fraction digits, cut off (not
/// rounded) or filled with zeros.
pub open spec fn decimal_text(mantissa: int, scale: nat, prec: nat) -> Seq<char> {
    let mag: nat = if mantissa < 0 { (-mantissa) as nat } else { mantissa as nat };
    let d = nat_digits(mag);
    let padded = if d.len() < scale { zeros((scale - d.len()) as nat) + d } else { d };
    let whole = padded.subrange(0, padded.len() - scale);
    let frac = padded.subrange(padded.len() - scale, padded.len() as int);
    let shown = if prec <= scale { frac.subrange(0, prec as int) } else { frac + zeros((prec - scale) as nat) };
    let sign = if mantissa < 0 { seq!['-'] } else { Seq::<char>::empty() };
    let int_part = if whole.len() == 0 { seq!['0'] } else { whole };
    sign + int_part + if prec > 0 { seq!['.'] + shown } else { Seq::<char>::empty() }
}

/// `rust_decimal` writes the text of `p` with `prec` digits, all but the
/// sign, into a buffer of 32 characters: it fits there.
pub open spec fn display_fits(p: Price, prec: nat) -> bool {
    decimal_text(p.mantissa as int, p.scale as nat, prec).len() <= 32 + (if p.mantissa < 0 { 1int } else { 0int })
}

/// `n` has at most `k` digits when it is below `10^k`.
proof fn lemma_digits_len(n: nat, k: nat)
    requires
        n < pow10(k),
    ensures
        nat_digits(n).len() <= k,
    decreases n,
{
    if n > 0 {
        if k == 0 {
            assert(pow10(0) == 1);
        } else {
            assert(pow10(k) == 10 * pow10((k - 1) as nat));
            assert(n / 10 < pow10((k - 1) as nat)) by (nonlinear_arith)
                requires
                    n < 10 * pow10((k - 1) as nat),
            ;
            lemma_digits_len(n / 10, (k - 1) as nat);
        }
    }
}

/// A decimal written with at most two digits after the point, or with all
/// of its own, fits `rust_decimal`'s buffer: its mantissa has at most 29
/// digits.
pub proof fn lemma_display_fits(p: Price, prec: nat)
    requires
        p.wf(),
        prec <= 2 || prec == p.scale,
    ensures
        display_fits(p, prec),
{
    let mag: nat = if p.mantissa < 0 { (-p.mantissa) as nat } else { p.mantissa as nat };
    lemma_pow10_bound(28);
    assert(pow10(29) == 10 * pow10(28));
    lemma_digits_len(mag, 29);
}

/// The text of `p` with `precision` digits after the point, as
/// `rust_decimal::Decimal`'s `Display` writes it (see `decimal_text`).
/// Precisions above 28, which `rust_decimal` fills with zeros it allocates
/// apart, and texts that overflow its buffer (see `display_fits`), on which
/// it panics, are not admitted.
#[verifier::external_body]
pub(crate) fn format_decimal(p: &Price, precision: usize) -> (res: String)
    requires
        p.wf(),
        precision <= max_scale(),
        display_fits(*p, precision as nat),
    ensures
        res@ == decimal_text(p.mantissa as int, p.scale as nat, precision as nat),
{
    format!("{:.*}", precision, rust_decimal::Decimal::from_i128_with_scale(p.mantissa, p.scale))
}

/// The text of `p` as `{}` writes it: all of its fraction digits.
pub fn price_text(p: &Price) -> (res: String)
    requires
        p.wf(),
    ensures
        res@ == decimal_text(p.mantissa as int, p.scale as nat, p.scale as nat),
{
    proof {
        lemma_display_fits(*p, p.scale as nat);
    }
    format_decimal(p, p.scale as usize)
}

/// The product `a * b` as `rust_decimal` computes it when the exact
/// product fits: zero (scale 0) when either factor is zero, else the
/// product of the mantissas at the sum of the scales.
pub open spec fn product(a: Price, b: Price) -> Price {
    if a.mantissa == 0 || b.mantissa == 0 {
        Price { mantissa: 0, scale: 0 }
    } else {
        Price { mantissa: (a.mantissa * b.mantissa) as i128, scale: (a.scale + b.scale) as u32 }
    }
}

/// The exact product of `a` and `b` is a decimal as it stands: a mantissa
/// of at most 96 bits at a scale of at most 28.
pub open spec fn product_fits(a: Price, b: Price) -> bool {
    &&& -max_mantissa() <= a.mantissa * b.mantissa <= max_mantissa()
    &&& a.scale + b.scale <= max_scale()
}

/// The magnitude of `x`.
pub open spec fn magnitude(x: int) -> nat {
    if x < 0 {
        (-x) as nat
    } else {
        x as nat
    }
}

/// `rust_decimal` can hold the product of `a` and `b`: rounded to a whole
/// number it has at most 96 bits. Larger products overflow, and `*` panics.
pub open spec fn mul_in_range(a: Price, b: Price) -> bool {
    round_half_even(magnitude(a.mantissa * b.mantissa), pow10((a.scale + b.scale) as nat)) <= max_mantissa()
}

/// The product that `rust_decimal`'s `*` gives for `a` and `b`.
pub uninterp spec fn decimal_product(a: Price, b: Price) -> Price;

/// `rust_decimal`'s `*`. When the exact product fits (see `product_fits`)
/// it is exact (see `product`); otherwise `rust_decimal` drops low digits,
/// rounding, until it fits, and that result is named `decimal_product`.
/// Products that overflow even as whole numbers, on which `*` panics, are
/// not admitted (see `mul_in_range`).
#[verifier::external_body]
pub(crate) fn decimal_mul(a: &Price, b: &Price) -> (res: Price)
    requires
        a.wf(),
        b.wf(),
        mul_in_range(*a, *b),
    ensures
        res == decimal_product(*a, *b),
        res.wf(),
        product_fits(*a, *b) ==> res == product(*a, *b),
{
    let d = rust_decimal::Decimal::from_i128_with_scale(a.mantissa, a.scale)
        * rust_decimal::Decimal::from_i128_with_scale(b.mantissa, b.scale);
    Price { mantissa: d.mantissa(), scale: d.scale() }
}

/// `a / d` rounded to the nearest integer, halves to the even one.
pub open spec fn round_half_even(a: nat, d: nat) -> nat
    recommends
        d > 0,
{
    let q = a / d;
    let r = a % d;
    if 2 * r > d || (2 * r == d && q % 2 == 1) {
        q + 1
    } else {
        q
    }
}

/// `10^k`.
pub open spec fn pow10(k: nat) -> nat
    decreases k,
{
    if k == 0 {
        1
    } else {
        10 * pow10((k - 1) as nat)
    }
}

/// `p` rounded to `dp` digits after the point as `Decimal::round_dp` does
/// it: unchanged when it has no more than `dp`; otherwise the magnitude is
/// rounded half to even at `dp` digits, keeping the sign.
pub open spec fn rounded(p: Price, dp: nat) -> Price {
    if p.scale <= dp {
        p
    } else {
        let k = (p.scale - dp) as nat;
        let mag: nat = if p.mantissa < 0 { (-p.mantissa) as nat } else { p.mantissa as nat };
        let m = round_half_even(mag, pow10(k));
        Price { mantissa: (if p.mantissa < 0 { -m } else { m as int }) as i128, scale: dp as u32 }
    }
}

/// `rust_decimal`'s `Decimal::round_dp`: `p` rounded half to even at `dp`
/// digits after the point (see `rounded`).
#[verifier::external_body]
pub(crate) fn decimal_round_dp(p: &Price, dp: u32) -> (res: Price)
    requires
        p.wf(),
    ensures
        res == rounded(*p, dp as nat),
        res.wf(),
{
    let d = rust_decimal::Decimal::from_i128_with_scale(p.mantissa, p.scale).round_dp(dp);
    Price { mantissa: d.mantissa(), scale: d.scale() }
}

/// `10^k` grows with `k`, and `10^28` is the largest a scale gives.
pub proof fn lemma_pow10_bound(k: nat)
    requires
        k <= 28,
    ensures
        1 <= pow10(k) <= pow10(28),
        pow10(28) == 10000000000000000000000000000,
    decreases 28 - k,
{
    reveal_with_fuel(pow10, 30);
    if k < 28 {
        lemma_pow10_bound(k + 1);
        assert(pow10(k + 1) == 10 * pow10(k));
    }
}

/// `10^k`, for a scale `k`.
pub fn pow10_exec(k: u32) -> (res: u128)
    requires
        k <= 28,
    ensures
        res == pow10(k as nat),
{
    let mut r: u128 = 1;
    let mut i: u32 = 0;
    while i < k
        invariant
            i <= k <= 28,
            r == pow10(i as nat),
        decreases k - i,
    {
        proof {
            lemma_pow10_bound((i + 1) as nat);
            assert(pow10((i + 1) as nat) == 10 * pow10(i as nat));
        }
        r = r * 10;
        i = i + 1;
    }
    r
}

/// `x` is a decimal greater than `y`, both `mantissa / 10^scale`.
pub open spec fn greater(x: Price, y: Price) -> bool {
    x.mantissa * pow10(y.scale as nat) > y.mantissa * pow10(x.scale as nat)
}

/// `rust_decimal`'s `>` on two decimals: the exact comparison of their
/// values.
#[verifier::external_body]
pub(crate) fn decimal_gt(x: &Price, y: &Price) -> (res: bool)
    requires
        x.wf(),
        y.wf(),
    ensures
        res == greater(*x, *y),
{
    rust_decimal::Decimal::from_i128_with_scale(x.mantissa, x.scale)
        > rust_decimal::Decimal::from_i128_with_scale(y.mantissa, y.scale)
}

} // verus!
