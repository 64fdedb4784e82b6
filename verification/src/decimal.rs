//! Decimal values from exchange feeds turned into integer ticks and units.
//! Parsing, multiplication, rounding and conversion are `rust_decimal`'s; a
//! `Decimal` travels through the library as its sign, magnitude and scale.

use vstd::prelude::*;
use rust_decimal::Decimal;
use rust_decimal::prelude::ToPrimitive;
use std::str::FromStr;
use crate::levels::{BookLevel, Price, Size};
use crate::models::{DEFAULT_PRICE_SCALE, DEFAULT_QTY_SCALE};

verus! {

#[verifier::external_type_specification]
#[verifier::external_body]
pub struct ExDecimalError(rust_decimal::Error);

/// A decimal as `rust_decimal` holds it: value = ±`mantissa` / 10^`scale`,
/// with the sign bit kept separately (a zero may carry it).
#[derive(Debug, Clone, Copy, PartialEq, Eq, Structural)]
pub struct DecimalParts {
    pub negative: bool,
    pub mantissa: u128,
    pub scale: u32,
}

impl DecimalParts {
    /// Within what a `Decimal` can hold: a 96-bit magnitude, a scale of at
    /// most 28.
    pub open spec fn wf(self) -> bool {
        self.mantissa < 0x1_0000_0000_0000_0000_0000_0000 && self.scale <= 28
    }
}

/// `Decimal::from(n)` for a whole number `n >= 0`.
pub open spec fn whole(n: nat) -> DecimalParts {
    DecimalParts { negative: false, mantissa: n as u128, scale: 0 }
}

/// What `Decimal::from_str` makes of `s`, when it succeeds.
pub uninterp spec fn parsed_decimal(s: Seq<char>) -> Option<DecimalParts>;

/// What `Decimal::checked_mul` returns for `a * b` (`None` where `*` panics).
pub uninterp spec fn decimal_product(a: DecimalParts, b: DecimalParts) -> Option<DecimalParts>;

/// `Decimal::from_str`, its result read back through `is_sign_negative`,
/// `mantissa` and `scale`. Any `Decimal` has a 96-bit magnitude and a scale
/// of at most 28.
#[verifier::external_body]
pub(crate) fn parse_decimal(s: &str) -> (r: Result<DecimalParts, rust_decimal::Error>)
    ensures
        r is Ok <==> parsed_decimal(s@) is Some,
        r matches Ok(d) ==> Some(d) == parsed_decimal(s@) && d.wf(),
{
    match Decimal::from_str(s) {
        Ok(d) => Ok(DecimalParts { negative: d.is_sign_negative(), mantissa: d.mantissa().unsigned_abs(), scale: d.scale() }),
        Err(e) => Err(e),
    }
}

/// The text of a `rust_decimal` error (its `Display`); nothing is stated of it.
#[verifier::external_body]
pub(crate) fn decimal_error_text(e: &rust_decimal::Error) -> String {
    format!("{e}")
}

/// `Decimal::checked_mul` on the decimals that `a` and `b` describe.
#[verifier::external_body]
pub(crate) fn checked_product(a: DecimalParts, b: DecimalParts) -> (r: Option<DecimalParts>)
    requires
        a.wf(),
        b.wf(),
    ensures
        r == decimal_product(a, b),
        r matches Some(d) ==> d.wf(),
{
    let mut x = Decimal::from_i128_with_scale(a.mantissa as i128, a.scale);
    x.set_sign_negative(a.negative);
    let mut y = Decimal::from_i128_with_scale(b.mantissa as i128, b.scale);
    y.set_sign_negative(b.negative);
    match x.checked_mul(y) {
        Some(d) => Some(DecimalParts { negative: d.is_sign_negative(), mantissa: d.mantissa().unsigned_abs(), scale: d.scale() }),
        None => None,
    }
}

/// 10^n.
pub open spec fn pow10(n: nat) -> nat
    decreases n,
{
    if n == 0 {
        1
    } else {
        10 * pow10((n - 1) as nat)
    }
}

/// `num / den` rounded to the nearest integer, ties to even.
pub open spec fn round_half_even(num: nat, den: nat) -> nat {
    let q = num / den;
    let r = num % den;
    if 2 * r > den || (2 * r == den && q % 2 == 1) {
        q + 1
    } else {
        q
    }
}

/// What `Decimal::round` gives: the nearest whole number, ties to even; the
/// sign bit stays unless a non-zero value rounds to zero.
pub open spec fn rounded(d: DecimalParts) -> DecimalParts {
    if d.scale == 0 {
        d
    } else if d.mantissa == 0 {
        DecimalParts { negative: d.negative, mantissa: 0, scale: 0 }
    } else {
        let m = round_half_even(d.mantissa as nat, pow10(d.scale as nat));
        DecimalParts { negative: d.negative && m != 0, mantissa: m as u128, scale: 0 }
    }
}

/// `Decimal::round` on the decimal that `d` describes.
#[verifier::external_body]
pub(crate) fn round_decimal(d: DecimalParts) -> (r: DecimalParts)
    requires
        d.wf(),
    ensures
        r == rounded(d),
{
    let mut x = Decimal::from_i128_with_scale(d.mantissa as i128, d.scale);
    x.set_sign_negative(d.negative);
    let y = x.round();
    DecimalParts { negative: y.is_sign_negative(), mantissa: y.mantissa().unsigned_abs(), scale: y.scale() }
}

/// The whole part of `d` when `d` carries no sign bit.
pub open spec fn unsigned_whole(d: DecimalParts) -> Option<nat> {
    if d.negative {
        None
    } else {
        Some((d.mantissa as nat) / pow10(d.scale as nat))
    }
}

/// What `ToPrimitive::to_u64` gives for `d`.
pub open spec fn u64_value(d: DecimalParts) -> Option<u64> {
    match unsigned_whole(d) {
        Some(v) => if v <= u64::MAX { Some(v as u64) } else { None },
        None => None,
    }
}

/// What `ToPrimitive::to_u32` gives for `d`.
pub open spec fn u32_value(d: DecimalParts) -> Option<u32> {
    match unsigned_whole(d) {
        Some(v) => if v <= u32::MAX { Some(v as u32) } else { None },
        None => None,
    }
}

/// `ToPrimitive::to_u64`: `None` for a set sign bit, else the truncated
/// value if it fits.
#[verifier::external_body]
pub(crate) fn decimal_to_u64(d: DecimalParts) -> (r: Option<u64>)
    requires
        d.wf(),
    ensures
        r == u64_value(d),
{
    let mut x = Decimal::from_i128_with_scale(d.mantissa as i128, d.scale);
    x.set_sign_negative(d.negative);
    x.to_u64()
}

/// `ToPrimitive::to_u32`: `to_u64`, then narrowed if it fits.
#[verifier::external_body]
pub(crate) fn decimal_to_u32(d: DecimalParts) -> (r: Option<u32>)
    requires
        d.wf(),
    ensures
        r == u32_value(d),
{
    let mut x = Decimal::from_i128_with_scale(d.mantissa as i128, d.scale);
    x.set_sign_negative(d.negative);
    x.to_u32()
}

/// `d * Decimal::from(factor)`, rounded, when the product fits.
pub open spec fn scaled_rounded(d: DecimalParts, factor: nat) -> Option<DecimalParts> {
    match decimal_product(d, whole(factor)) {
        Some(p) => Some(rounded(p)),
        None => None,
    }
}

/// Scaling the level (`p`, `s`) overflows a `Decimal`, where the feeds'
/// `*` panics.
pub open spec fn scaling_overflows(p: DecimalParts, s: DecimalParts) -> bool {
    scaled_rounded(p, DEFAULT_PRICE_SCALE as nat) is None || scaled_rounded(s, DEFAULT_QTY_SCALE as nat) is None
}

/// The level for price `p` and size `s`: each multiplied by its default
/// scale and rounded, the price read as a `u32` and the size as a `u64`;
/// `None` when one does not fit.
pub open spec fn level_from(p: DecimalParts, s: DecimalParts) -> Option<BookLevel> {
    match (scaled_rounded(p, DEFAULT_PRICE_SCALE as nat), scaled_rounded(s, DEFAULT_QTY_SCALE as nat)) {
        (Some(a), Some(b)) => match (u32_value(a), u64_value(b)) {
            (Some(x), Some(y)) => Some(BookLevel { price: Price(x), size: Size(y) }),
            _ => None,
        },
        _ => None,
    }
}

/// `d * Decimal::from(factor)`, then `round`.
pub fn scale_and_round(d: DecimalParts, factor: u64) -> (r: DecimalParts)
    requires
        d.wf(),
        decimal_product(d, whole(factor as nat)) is Some,
    ensures
        scaled_rounded(d, factor as nat) == Some(r),
        r.wf(),
{
    let f = DecimalParts { negative: false, mantissa: factor as u128, scale: 0 };
    assert(f == whole(factor as nat));
    let p = match checked_product(d, f) {
        Some(p) => p,
        None => {
            assert(false);
            d
        },
    };
    let r = round_decimal(p);
    proof {
        if p.scale != 0 && p.mantissa != 0 {
            lemma_pow10_ge(p.scale as nat);
            lemma_round_half_even_le(p.mantissa as nat, pow10(p.scale as nat));
        }
    }
    r
}

/// Whether the level (`p`, `s`) can be scaled without overflow.
pub fn scaling_fits(p: DecimalParts, s: DecimalParts) -> (r: bool)
    requires
        p.wf(),
        s.wf(),
    ensures
        r == !scaling_overflows(p, s),
{
    let tp = DecimalParts { negative: false, mantissa: DEFAULT_PRICE_SCALE as u128, scale: 0 };
    let tq = DecimalParts { negative: false, mantissa: DEFAULT_QTY_SCALE as u128, scale: 0 };
    assert(tp == whole(DEFAULT_PRICE_SCALE as nat));
    assert(tq == whole(DEFAULT_QTY_SCALE as nat));
    checked_product(p, tp).is_some() && checked_product(s, tq).is_some()
}

/// The scaled level for price `p` and size `s`.
pub fn scaled_level(p: DecimalParts, s: DecimalParts) -> (r: Option<BookLevel>)
    requires
        p.wf(),
        s.wf(),
        !scaling_overflows(p, s),
    ensures
        r == level_from(p, s),
{
    let sp = scale_and_round(p, DEFAULT_PRICE_SCALE as u64);
    let ss = scale_and_round(s, DEFAULT_QTY_SCALE);
    let price = match decimal_to_u32(sp) {
        Some(v) => v,
        None => {
            return None;
        },
    };
    let size = match decimal_to_u64(ss) {
        Some(v) => v,
        None => {
            return None;
        },
    };
    Some(BookLevel { price: Price(price), size: Size(size) })
}

/// A level given as decimal strings overflows when scaled: both parse and
/// one of the scaled values does not fit in a `Decimal`.
pub open spec fn level_panics(price: Seq<char>, size: Seq<char>) -> bool {
    match (parsed_decimal(price), parsed_decimal(size)) {
        (Some(p), Some(s)) => scaling_overflows(p, s),
        _ => false,
    }
}

/// The level a pair of decimal strings stands for; `None` when a string does
/// not parse or a scaled value does not fit.
pub open spec fn level_of(price: Seq<char>, size: Seq<char>) -> Option<BookLevel> {
    match (parsed_decimal(price), parsed_decimal(size)) {
        (Some(p), Some(s)) => level_from(p, s),
        _ => None,
    }
}

/// Whether the level (`price`, `size`) can be scaled without overflow.
pub fn level_scalable(price: &str, size: &str) -> (r: bool)
    ensures
        r == !level_panics(price@, size@),
{
    match (parse_decimal(price), parse_decimal(size)) {
        (Ok(p), Ok(s)) => scaling_fits(p, s),
        _ => true,
    }
}

/// The level for decimal strings `price` and `size`.
pub fn level_from_strings(price: &str, size: &str) -> (r: Option<BookLevel>)
    requires
        !level_panics(price@, size@),
    ensures
        r == level_of(price@, size@),
{
    let p = match parse_decimal(price) {
        Ok(p) => p,
        Err(_) => {
            return None;
        },
    };
    let s = match parse_decimal(size) {
        Ok(s) => s,
        Err(_) => {
            return None;
        },
    };
    scaled_level(p, s)
}

/// The value of `d` times 10^28: an integer for any `Decimal`, ordered as
/// the decimals are and equal exactly when their values are.
pub open spec fn value28(d: DecimalParts) -> int {
    let m = (d.mantissa as int) * (pow10((28 - d.scale) as nat) as int);
    if d.negative {
        -m
    } else {
        m
    }
}

/// `Decimal`'s `<`: compares the values of the decimals `a` and `b` describe.
#[verifier::external_body]
pub(crate) fn decimal_lt(a: DecimalParts, b: DecimalParts) -> (r: bool)
    requires
        a.wf(),
        b.wf(),
    ensures
        r == (value28(a) < value28(b)),
{
    let mut x = Decimal::from_i128_with_scale(a.mantissa as i128, a.scale);
    x.set_sign_negative(a.negative);
    let mut y = Decimal::from_i128_with_scale(b.mantissa as i128, b.scale);
    y.set_sign_negative(b.negative);
    x < y
}

/// `Decimal`'s `==`: the decimals `a` and `b` describe have equal values.
#[verifier::external_body]
pub(crate) fn decimal_eq(a: DecimalParts, b: DecimalParts) -> (r: bool)
    requires
        a.wf(),
        b.wf(),
    ensures
        r == (value28(a) == value28(b)),
{
    let mut x = Decimal::from_i128_with_scale(a.mantissa as i128, a.scale);
    x.set_sign_negative(a.negative);
    let mut y = Decimal::from_i128_with_scale(b.mantissa as i128, b.scale);
    y.set_sign_negative(b.negative);
    x == y
}

/// `Decimal::default()`, zero.
pub open spec fn zero_decimal() -> DecimalParts {
    DecimalParts { negative: false, mantissa: 0, scale: 0 }
}

/// `Decimal::from_str(s).unwrap_or_default()`.
pub open spec fn decimal_or_zero(s: Seq<char>) -> DecimalParts {
    match parsed_decimal(s) {
        Some(d) => d,
        None => zero_decimal(),
    }
}

/// The decimal `s` holds, zero when it does not parse.
pub fn parse_decimal_or_zero(s: &str) -> (r: DecimalParts)
    ensures
        r == decimal_or_zero(s@),
        r.wf(),
{
    match parse_decimal(s) {
        Ok(d) => d,
        Err(_) => DecimalParts { negative: false, mantissa: 0, scale: 0 },
    }
}

/// `m` and `s` with trailing decimal zeros stripped while the scale allows.
pub open spec fn stripped(m: nat, s: nat) -> (nat, nat)
    decreases s,
{
    if s > 0 && m % 10 == 0 {
        stripped(m / 10, (s - 1) as nat)
    } else {
        (m, s)
    }
}

/// What `Decimal::normalize` gives: trailing zeros stripped, and a zero
/// without sign or scale.
pub open spec fn normalized(d: DecimalParts) -> DecimalParts {
    if d.mantissa == 0 {
        zero_decimal()
    } else {
        let (m, s) = stripped(d.mantissa as nat, d.scale as nat);
        DecimalParts { negative: d.negative, mantissa: m as u128, scale: s as u32 }
    }
}

/// How `Decimal`'s `Display` writes `d`.
pub uninterp spec fn decimal_text(d: DecimalParts) -> Seq<char>;

/// `Decimal::normalize`: trailing zeros stripped, `-0` made `0`.
#[verifier::external_body]
pub(crate) fn normalize_decimal(d: DecimalParts) -> (r: DecimalParts)
    requires
        d.wf(),
    ensures
        r == normalized(d),
{
    let mut x = Decimal::from_i128_with_scale(d.mantissa as i128, d.scale);
    x.set_sign_negative(d.negative);
    let y = x.normalize();
    DecimalParts { negative: y.is_sign_negative(), mantissa: y.mantissa().unsigned_abs(), scale: y.scale() }
}

/// `Decimal`'s `to_string` (its `Display`).
#[verifier::external_body]
pub(crate) fn decimal_to_text(d: DecimalParts) -> (r: String)
    requires
        d.wf(),
    ensures
        r@ == decimal_text(d),
{
    let mut x = Decimal::from_i128_with_scale(d.mantissa as i128, d.scale);
    x.set_sign_negative(d.negative);
    x.to_string()
}

/// Stripping trailing zeros shrinks neither the mantissa nor the scale.
pub proof fn lemma_stripped_le(m: nat, s: nat)
    ensures
        stripped(m, s).0 <= m,
        stripped(m, s).1 <= s,
    decreases s,
{
    if s > 0 && m % 10 == 0 {
        lemma_stripped_le(m / 10, (s - 1) as nat);
    }
}

/// A normalized `Decimal` is still within what a `Decimal` holds.
pub proof fn lemma_normalized_wf(d: DecimalParts)
    requires
        d.wf(),
    ensures
        normalized(d).wf(),
{
    lemma_stripped_le(d.mantissa as nat, d.scale as nat);
}

/// What `Decimal::checked_div` returns for `a / b` (`None` where `/`
/// panics).
pub uninterp spec fn decimal_quotient(a: DecimalParts, b: DecimalParts) -> Option<DecimalParts>;

/// `Decimal::checked_div` on the decimals that `a` and `b` describe.
#[verifier::external_body]
pub(crate) fn checked_quotient(a: DecimalParts, b: DecimalParts) -> (r: Option<DecimalParts>)
    requires
        a.wf(),
        b.wf(),
    ensures
        r == decimal_quotient(a, b),
        r matches Some(d) ==> d.wf(),
{
    let mut x = Decimal::from_i128_with_scale(a.mantissa as i128, a.scale);
    x.set_sign_negative(a.negative);
    let mut y = Decimal::from_i128_with_scale(b.mantissa as i128, b.scale);
    y.set_sign_negative(b.negative);
    match x.checked_div(y) {
        Some(d) => Some(DecimalParts { negative: d.is_sign_negative(), mantissa: d.mantissa().unsigned_abs(), scale: d.scale() }),
        None => None,
    }
}

/// The value `units / scale` as a `Decimal` (zero for a zero scale), as the
/// ingestion rows carry prices and sizes; `None` where the division would
/// panic.
pub open spec fn unscaled(units: nat, scale: nat) -> Option<DecimalParts> {
    if scale == 0 {
        Some(zero_decimal())
    } else {
        decimal_quotient(whole(units), whole(scale))
    }
}

/// `units / scale` as a `Decimal`, zero for a zero scale.
pub fn decimal_unscaled(units: u64, scale: u64) -> (r: Option<DecimalParts>)
    ensures
        r == unscaled(units as nat, scale as nat),
{
    if scale == 0 {
        return Some(DecimalParts { negative: false, mantissa: 0, scale: 0 });
    }
    let a = DecimalParts { negative: false, mantissa: units as u128, scale: 0 };
    let b = DecimalParts { negative: false, mantissa: scale as u128, scale: 0 };
    assert(a == whole(units as nat) && b == whole(scale as nat));
    checked_quotient(a, b)
}

pub proof fn lemma_pow10_ge(n: nat)
    ensures
        pow10(n) >= 1,
        n >= 1 ==> pow10(n) >= 10,
    decreases n,
{
    if n > 0 {
        lemma_pow10_ge((n - 1) as nat);
    }
}

pub proof fn lemma_pow10_mono(a: nat, b: nat)
    requires
        a <= b,
    ensures
        pow10(a) <= pow10(b),
    decreases b,
{
    if a < b {
        lemma_pow10_mono(a, (b - 1) as nat);
    }
}

proof fn lemma_round_half_even_le(num: nat, den: nat)
    requires
        den >= 10,
    ensures
        round_half_even(num, den) <= num,
{
    let q = num / den;
    assert(q * den <= num) by (nonlinear_arith)
        requires
            den >= 1,
            q == num / den,
    ;
    assert(q * 10 <= q * den) by (nonlinear_arith)
        requires
            den >= 10,
    ;
    if num > 0 {
        assert(q + 1 <= num) by (nonlinear_arith)
            requires
                q * 10 <= num,
                num > 0,
        ;
    }
}

} // verus!
