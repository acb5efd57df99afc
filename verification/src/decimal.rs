//! Exact decimal numbers for prices and money.
//!
//! A [`Dec`] holds the two plain parts of a `rust_decimal::Decimal`: a signed
//! 96-bit mantissa and a base-10 scale in `0..=28`; its value is
//! `mantissa / 10^scale`. Comparisons and the conversions that cannot round
//! are stated exactly here; the rounding arithmetic (sum, difference,
//! product, quotient, rounding to places, text rendering and parsing) is done
//! by `rust_decimal` itself, and each of its results is given a name below.
//! Every checked operation returns `None` exactly where the `rust_decimal`
//! operator would have panicked (overflow, or division by zero).

use vstd::prelude::*;
use rust_decimal::Decimal;

verus! {

/// Largest mantissa magnitude a `Decimal` can hold: 2^96 - 1.
pub const MAX_MANTISSA: i128 = 79228162514264337593543950335;

/// Largest scale a `Decimal` can hold.
pub const MAX_SCALE: u32 = 28;

pub open spec fn pow10(n: nat) -> int
    decreases n,
{
    if n == 0 {
        1
    } else {
        10 * pow10((n - 1) as nat)
    }
}

pub proof fn lemma_pow10_positive(n: nat)
    ensures
        pow10(n) >= 1,
    decreases n,
{
    if n > 0 {
        lemma_pow10_positive((n - 1) as nat);
    }
}

/// An exact decimal number `mantissa / 10^scale`.
#[derive(Clone, Copy, Debug)]
pub struct Dec {
    mantissa: i128,
    scale: u32,
}

impl Dec {
    #[verifier::type_invariant]
    spec fn fits(self) -> bool {
        &&& -MAX_MANTISSA <= self.mantissa <= MAX_MANTISSA
        &&& self.scale <= MAX_SCALE
    }

    /// The mantissa as a mathematical integer.
    pub closed spec fn mant(self) -> int {
        self.mantissa as int
    }

    /// The scale as a natural number.
    pub closed spec fn sc(self) -> nat {
        self.scale as nat
    }

    pub fn mantissa(&self) -> (r: i128)
        ensures
            r == self.mant(),
            -MAX_MANTISSA <= r <= MAX_MANTISSA,
    {
        proof {
            use_type_invariant(self);
        }
        self.mantissa
    }

    pub fn scale(&self) -> (r: u32)
        ensures
            r == self.sc(),
            r <= MAX_SCALE,
    {
        proof {
            use_type_invariant(self);
        }
        self.scale
    }

    /// Builds the number `mantissa / 10^scale`; `None` when a part is out of
    /// the `Decimal` range.
    pub fn from_parts(mantissa: i128, scale: u32) -> (r: Option<Dec>)
        ensures
            r is Some <==> (-MAX_MANTISSA <= mantissa <= MAX_MANTISSA && scale <= MAX_SCALE),
            r matches Some(d) ==> d.mant() == mantissa && d.sc() == scale && d == dec_parts(mantissa as int, scale as nat),
    {
        if -MAX_MANTISSA <= mantissa && mantissa <= MAX_MANTISSA && scale <= MAX_SCALE {
            Some(Dec { mantissa, scale })
        } else {
            None
        }
    }

    /// The integer `n` (scale 0), as `Decimal::from(i64)` builds it.
    pub fn from_i64(n: i64) -> (r: Dec)
        ensures
            is_int(r, n as int),
            r == dec_of_int(n as int),
    {
        Dec { mantissa: n as i128, scale: 0 }
    }

    /// The integer `n` (scale 0), as `Decimal::from(u64)` or
    /// `Decimal::from(usize)` builds it.
    pub fn from_u64(n: u64) -> (r: Dec)
        ensures
            is_int(r, n as int),
            r == dec_of_int(n as int),
    {
        Dec { mantissa: n as i128, scale: 0 }
    }

    /// The integer `n` (scale 0).
    pub fn from_int(n: i128) -> (r: Dec)
        requires
            -MAX_MANTISSA <= n <= MAX_MANTISSA,
        ensures
            r == dec_of_int(n as int),
    {
        Dec { mantissa: n, scale: 0 }
    }

    pub fn zero() -> (r: Dec)
        ensures
            is_int(r, 0),
            r == dec_of_int(0),
    {
        Dec { mantissa: 0, scale: 0 }
    }

    pub fn one() -> (r: Dec)
        ensures
            is_int(r, 1),
            r == dec_of_int(1),
    {
        Dec { mantissa: 1, scale: 0 }
    }

    pub fn is_zero(&self) -> (r: bool)
        ensures
            r == (self.mant() == 0),
    {
        self.mantissa == 0
    }

    /// `-self`, exact.
    pub fn neg(&self) -> (r: Dec)
        ensures
            r.mant() == -self.mant(),
            r.sc() == self.sc(),
            r == dec_neg(*self),
    {
        proof {
            use_type_invariant(self);
        }
        Dec { mantissa: -self.mantissa, scale: self.scale }
    }

    /// Exact three-way comparison of the two values: -1, 0 or 1.
    pub fn compare(&self, other: &Dec) -> (r: i8)
        ensures
            r == dec_sign(*self, *other),
    {
        compare_values(*self, *other)
    }

    pub fn lt(&self, other: &Dec) -> (r: bool)
        ensures
            r == dec_lt(*self, *other),
    {
        compare_values(*self, *other) < 0
    }

    pub fn le(&self, other: &Dec) -> (r: bool)
        ensures
            r == dec_le(*self, *other),
    {
        compare_values(*self, *other) <= 0
    }

    pub fn gt(&self, other: &Dec) -> (r: bool)
        ensures
            r == dec_lt(*other, *self),
    {
        compare_values(*self, *other) > 0
    }

    pub fn ge(&self, other: &Dec) -> (r: bool)
        ensures
            r == dec_le(*other, *self),
    {
        compare_values(*self, *other) >= 0
    }

    /// Value equality (`80000` equals `80000.00`).
    pub fn same_value(&self, other: &Dec) -> (r: bool)
        ensures
            r == dec_eq(*self, *other),
    {
        compare_values(*self, *other) == 0
    }

    pub fn is_negative(&self) -> (r: bool)
        ensures
            r == (self.mant() < 0),
    {
        self.mantissa < 0
    }

    /// The smaller of two values (the first on a tie), as `Decimal::min`.
    pub fn min(self, other: Dec) -> (r: Dec)
        ensures
            r == (if dec_le(self, other) { self } else { other }),
    {
        if self.le(&other) {
            self
        } else {
            other
        }
    }

    /// The larger of two values (the second on a tie), as `Decimal::max`.
    pub fn max(self, other: Dec) -> (r: Dec)
        ensures
            r == (if dec_le(self, other) { other } else { self }),
    {
        if self.le(&other) {
            other
        } else {
            self
        }
    }

    /// `|self|`, exact.
    pub fn abs(&self) -> (r: Dec)
        ensures
            r.mant() == (if self.mant() < 0 { -self.mant() } else { self.mant() }),
            r.sc() == self.sc(),
            r == dec_abs(*self),
    {
        if self.mantissa < 0 {
            self.neg()
        } else {
            *self
        }
    }
}

/// The number `mantissa / 10^scale` (for parts in range).
pub closed spec fn dec_parts(mantissa: int, scale: nat) -> Dec {
    Dec { mantissa: mantissa as i128, scale: scale as u32 }
}

/// `|d|`, with the same scale.
pub open spec fn dec_abs(d: Dec) -> Dec {
    if d.mant() < 0 { dec_neg(d) } else { d }
}

/// `-d`, with the same scale.
pub closed spec fn dec_neg(d: Dec) -> Dec {
    Dec { mantissa: (-d.mantissa) as i128, scale: d.scale }
}

/// The integer `n` written with scale 0 (for `n` in the mantissa range).
pub closed spec fn dec_of_int(n: int) -> Dec {
    Dec { mantissa: n as i128, scale: 0 }
}

/// The zero built from an integer is the integer zero at scale 0.
pub proof fn lemma_zero_is_int()
    ensures
        is_int(dec_of_int(0), 0),
{
}

/// Left-to-right sum from zero, as `Decimal`'s `Sum` computes it with `+=`;
/// `None` where one of the additions would overflow.
pub open spec fn dec_sum(s: Seq<Dec>) -> Option<Dec>
    decreases s.len(),
{
    if s.len() == 0 {
        Some(dec_of_int(0))
    } else {
        match dec_sum(s.drop_last()) {
            Some(acc) => decimal_checked_add(acc, s.last()),
            None => None,
        }
    }
}

/// `d` is the integer `n` written with scale 0.
pub open spec fn is_int(d: Dec, n: int) -> bool {
    d.mant() == n && d.sc() == 0
}

/// `a - b`, scaled by `10^(a.scale + b.scale)`; its sign orders the values.
pub open spec fn num_diff(a: Dec, b: Dec) -> int {
    a.mant() * pow10(b.sc()) - b.mant() * pow10(a.sc())
}

pub open spec fn dec_lt(a: Dec, b: Dec) -> bool {
    num_diff(a, b) < 0
}

pub open spec fn dec_le(a: Dec, b: Dec) -> bool {
    num_diff(a, b) <= 0
}

pub open spec fn dec_eq(a: Dec, b: Dec) -> bool {
    num_diff(a, b) == 0
}

pub open spec fn dec_sign(a: Dec, b: Dec) -> int {
    if num_diff(a, b) < 0 {
        -1
    } else if num_diff(a, b) == 0 {
        0
    } else {
        1
    }
}

/// Exact comparison through `Decimal`'s `Ord`, which orders by value.
#[verifier::external_body]
fn compare_values(a: Dec, b: Dec) -> (r: i8)
    ensures
        r == dec_sign(a, b),
{
    let x = Decimal::from_i128_with_scale(a.mantissa, a.scale);
    let y = Decimal::from_i128_with_scale(b.mantissa, b.scale);
    match x.cmp(&y) {
        std::cmp::Ordering::Less => -1i8,
        std::cmp::Ordering::Equal => 0i8,
        std::cmp::Ordering::Greater => 1i8,
    }
}

/// The result of `Decimal::checked_add` on the two values.
pub uninterp spec fn decimal_checked_add(a: Dec, b: Dec) -> Option<Dec>;

/// The result of `Decimal::checked_sub` on the two values.
pub uninterp spec fn decimal_checked_sub(a: Dec, b: Dec) -> Option<Dec>;

/// The result of `Decimal::checked_mul` on the two values.
pub uninterp spec fn decimal_checked_mul(a: Dec, b: Dec) -> Option<Dec>;

/// The result of `Decimal::checked_div` on the two values.
pub uninterp spec fn decimal_checked_div(a: Dec, b: Dec) -> Option<Dec>;

/// The result of `Decimal::round_dp(dp)` (half-to-even rounding).
pub uninterp spec fn decimal_round_dp(a: Dec, dp: nat) -> Dec;

/// The text `Decimal`'s `Display` writes for the value.
pub uninterp spec fn decimal_text(a: Dec) -> Seq<char>;

/// The result of `Decimal`'s `FromStr` on the text: the value, or the
/// error's rendered text.
pub uninterp spec fn decimal_from_str(text: Seq<char>) -> Result<Dec, Seq<char>>;

/// The decimal a text spells, if any.
pub open spec fn decimal_parse(text: Seq<char>) -> Option<Dec> {
    match decimal_from_str(text) {
        Ok(d) => Some(d),
        Err(_) => None,
    }
}

/// A copy of a list of values.
pub fn copy_all(values: &Vec<Dec>) -> (r: Vec<Dec>)
    ensures
        r@ == values@,
{
    let mut out: Vec<Dec> = Vec::new();
    let mut i: usize = 0;
    while i < values.len()
        invariant
            0 <= i <= values@.len(),
            out@ == values@.subrange(0, i as int),
        decreases values.len() - i,
    {
        out.push(values[i]);
        i = i + 1;
    }
    assert(out@ =~= values@);
    out
}

/// The sum of all values in order; `None` on overflow.
pub fn sum_all(values: &Vec<Dec>) -> (r: Option<Dec>)
    ensures
        r == dec_sum(values@),
{
    let mut acc = Dec::zero();
    let mut i: usize = 0;
    while i < values.len()
        invariant
            0 <= i <= values.len(),
            dec_sum(values@.subrange(0, i as int)) == Some(acc),
        decreases values.len() - i,
    {
        assert(values@.subrange(0, i + 1).drop_last() =~= values@.subrange(0, i as int));
        match acc.checked_add(&values[i]) {
            Some(next) => {
                acc = next;
            },
            None => {
                proof {
                    lemma_dec_sum_none_extends(values@, i as int + 1);
                }
                return None;
            },
        }
        i = i + 1;
    }
    assert(values@.subrange(0, values.len() as int) =~= values@);
    Some(acc)
}

/// Once a prefix sum overflows, every longer prefix does too.
pub proof fn lemma_dec_sum_none_extends(s: Seq<Dec>, k: int)
    requires
        0 <= k <= s.len(),
        dec_sum(s.subrange(0, k)) is None,
    ensures
        dec_sum(s) is None,
    decreases s.len() - k,
{
    if k < s.len() {
        assert(s.subrange(0, k + 1).drop_last() =~= s.subrange(0, k));
        lemma_dec_sum_none_extends(s, k + 1);
    } else {
        assert(s.subrange(0, k) =~= s);
    }
}

/// `Decimal::checked_add`: `None` where `+` would overflow; adding a zero
/// gives the other operand unchanged.
#[verifier::external_body]
fn rd_checked_add(a: Dec, b: Dec) -> (r: Option<Dec>)
    ensures
        r == decimal_checked_add(a, b),
        a.mant() == 0 ==> r == Some(b),
        b.mant() == 0 && a.mant() != 0 ==> r == Some(a),
{
    let x = Decimal::from_i128_with_scale(a.mantissa, a.scale);
    let y = Decimal::from_i128_with_scale(b.mantissa, b.scale);
    x.checked_add(y).map(|v| Dec { mantissa: v.mantissa(), scale: v.scale() })
}

/// `Decimal::checked_sub`: `None` where `-` would overflow; taking away a
/// zero gives the first operand unchanged.
#[verifier::external_body]
fn rd_checked_sub(a: Dec, b: Dec) -> (r: Option<Dec>)
    ensures
        r == decimal_checked_sub(a, b),
        b.mant() == 0 && a.mant() != 0 ==> r == Some(a),
{
    let x = Decimal::from_i128_with_scale(a.mantissa, a.scale);
    let y = Decimal::from_i128_with_scale(b.mantissa, b.scale);
    x.checked_sub(y).map(|v| Dec { mantissa: v.mantissa(), scale: v.scale() })
}

/// `Decimal::checked_mul`: `None` where `*` would overflow.
#[verifier::external_body]
fn rd_checked_mul(a: Dec, b: Dec) -> (r: Option<Dec>)
    ensures
        r == decimal_checked_mul(a, b),
{
    let x = Decimal::from_i128_with_scale(a.mantissa, a.scale);
    let y = Decimal::from_i128_with_scale(b.mantissa, b.scale);
    x.checked_mul(y).map(|v| Dec { mantissa: v.mantissa(), scale: v.scale() })
}

/// `Decimal::checked_div`: `None` where `/` would overflow or the divisor
/// is zero.
#[verifier::external_body]
fn rd_checked_div(a: Dec, b: Dec) -> (r: Option<Dec>)
    ensures
        r == decimal_checked_div(a, b),
        b.mant() == 0 ==> r is None,
{
    let x = Decimal::from_i128_with_scale(a.mantissa, a.scale);
    let y = Decimal::from_i128_with_scale(b.mantissa, b.scale);
    x.checked_div(y).map(|v| Dec { mantissa: v.mantissa(), scale: v.scale() })
}

/// `Decimal::round_dp`: half-to-even rounding to at most `dp` places.
#[verifier::external_body]
fn rd_round_dp(a: Dec, dp: u32) -> (r: Dec)
    ensures
        r == decimal_round_dp(a, dp as nat),
{
    let v = Decimal::from_i128_with_scale(a.mantissa, a.scale).round_dp(dp);
    Dec { mantissa: v.mantissa(), scale: v.scale() }
}

/// `Decimal`'s `Display` (`to_string`).
#[verifier::external_body]
fn rd_text(a: Dec) -> (r: String)
    ensures
        r@ == decimal_text(a),
{
    Decimal::from_i128_with_scale(a.mantissa, a.scale).to_string()
}

/// `Decimal`'s `FromStr`: the value, or the error's rendered text.
#[verifier::external_body]
fn rd_from_str(text: &str) -> (r: Result<Dec, String>)
    ensures
        match decimal_from_str(text@) {
            Ok(d) => r == Ok::<Dec, String>(d),
            Err(m) => r matches Err(x) && x@ == m,
        },
{
    match text.parse::<Decimal>() {
        Ok(v) => Ok(Dec { mantissa: v.mantissa(), scale: v.scale() }),
        Err(e) => Err(e.to_string()),
    }
}

impl Dec {
    /// The sum, or `None` where `+` would overflow.
    pub fn checked_add(&self, other: &Dec) -> (r: Option<Dec>)
        ensures
            r == decimal_checked_add(*self, *other),
            self.mant() == 0 ==> r == Some(*other),
            other.mant() == 0 && self.mant() != 0 ==> r == Some(*self),
    {
        rd_checked_add(*self, *other)
    }

    /// The difference, or `None` where `-` would overflow.
    pub fn checked_sub(&self, other: &Dec) -> (r: Option<Dec>)
        ensures
            r == decimal_checked_sub(*self, *other),
            other.mant() == 0 && self.mant() != 0 ==> r == Some(*self),
    {
        rd_checked_sub(*self, *other)
    }

    /// The product, or `None` where `*` would overflow.
    pub fn checked_mul(&self, other: &Dec) -> (r: Option<Dec>)
        ensures
            r == decimal_checked_mul(*self, *other),
    {
        rd_checked_mul(*self, *other)
    }

    /// The quotient, or `None` where `/` would overflow or the divisor is
    /// zero.
    pub fn checked_div(&self, other: &Dec) -> (r: Option<Dec>)
        ensures
            r == decimal_checked_div(*self, *other),
            other.mant() == 0 ==> r is None,
    {
        rd_checked_div(*self, *other)
    }

    /// Rounded half-to-even to at most `dp` places.
    pub fn round_dp(&self, dp: u32) -> (r: Dec)
        ensures
            r == decimal_round_dp(*self, dp as nat),
    {
        rd_round_dp(*self, dp)
    }

    /// The decimal text of the value.
    pub fn to_text(&self) -> (r: String)
        ensures
            r@ == decimal_text(*self),
    {
        rd_text(*self)
    }

    /// The value a decimal text spells; `None` where it spells none.
    pub fn parse(text: &str) -> (r: Option<Dec>)
        ensures
            r == decimal_parse(text@),
    {
        match rd_from_str(text) {
            Ok(d) => Some(d),
            Err(_) => None,
        }
    }

    /// The value a decimal text spells, or why it spells none.
    pub fn parse_detailed(text: &str) -> (r: Result<Dec, String>)
        ensures
            match decimal_from_str(text@) {
                Ok(d) => r == Ok::<Dec, String>(d),
                Err(m) => r matches Err(x) && x@ == m,
            },
    {
        rd_from_str(text)
    }
}

} // verus!
