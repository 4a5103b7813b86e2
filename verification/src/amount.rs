//! Monetary amounts.
//!
//! An [`Amount`] holds, as plain values, exactly what a `rust_decimal::Decimal`
//! holds: a sign flag, a 96-bit magnitude and a decimal scale between 0 and 28.
//! Its numeric value is `(-1)^negative * mantissa / 10^scale`.
//!
//! Arithmetic and comparison are done by `rust_decimal` itself, behind the
//! trusted wrappers at the end of this file. To reason about values, the
//! contracts use [`Amount::units`], the value counted in units of `10^-28`,
//! which is an integer for every representable amount.
use vstd::prelude::*;

use rust_decimal::Decimal;

verus! {

/// Largest scale (number of fractional decimal digits) an amount may carry.
pub const MAX_SCALE: u32 = 28;

/// Exclusive upper bound of the magnitude: `2^96`.
pub const MANTISSA_LIMIT: u128 = 0x1_0000_0000_0000_0000_0000_0000;

/// `10^n`.
pub open spec fn pow10(n: nat) -> int
    decreases n,
{
    if n == 0 {
        1
    } else {
        10 * pow10((n - 1) as nat)
    }
}

/// Powers of ten are positive.
pub proof fn lemma_pow10_positive(n: nat)
    ensures
        pow10(n) >= 1,
    decreases n,
{
    if n > 0 {
        lemma_pow10_positive((n - 1) as nat);
    }
}

/// `10^(a + b) = 10^a * 10^b`.
pub proof fn lemma_pow10_add(a: nat, b: nat)
    ensures
        pow10(a + b) == pow10(a) * pow10(b),
    decreases a,
{
    if a > 0 {
        lemma_pow10_add((a - 1) as nat, b);
        assert(pow10(a + b) == 10 * pow10((a - 1 + b) as nat));
        assert(10 * (pow10((a - 1) as nat) * pow10(b)) == (10 * pow10((a - 1) as nat)) * pow10(b)) by (nonlinear_arith);
    }
}

/// Two normal amounts of the same value, the first with no more fractional digits
/// than the second, have the same parts.
proof fn lemma_same_value_same_parts(x: Amount, y: Amount)
    requires
        x.frac_digits() <= y.frac_digits() <= MAX_SCALE,
        x.is_normal(),
        y.is_normal(),
        x.units() == y.units(),
    ensures
        x == y,
{
    let d = (y.frac_digits() - x.frac_digits()) as nat;
    let e = (MAX_SCALE - y.frac_digits()) as nat;
    lemma_pow10_add(d, e);
    assert((MAX_SCALE - x.frac_digits()) as nat == d + e);
    lemma_pow10_positive(e);
    lemma_pow10_positive(d);
    let pd = pow10(d);
    let pe = pow10(e);
    let sx = x.signed_mantissa();
    let sy = y.signed_mantissa();
    assert(sx * (pd * pe) == (sx * pd) * pe) by (nonlinear_arith);
    assert((sx * pd) * pe == sy * pe);
    assert(sx * pd == sy) by (nonlinear_arith)
        requires
            (sx * pd) * pe == sy * pe,
            pe >= 1,
    ;
    if d > 0 {
        assert(pd == 10 * pow10((d - 1) as nat));
        let q = pow10((d - 1) as nat);
        assert(sy == 10 * (sx * q)) by (nonlinear_arith)
            requires
                sy == sx * pd,
                pd == 10 * q,
        ;
        assert(y.magnitude() % 10 == 0) by {
            let k = sx * q;
            if sy >= 0 {
                assert(y.magnitude() == 10 * k);
            } else {
                assert(y.magnitude() == 10 * (-k));
            }
        }
        assert(false);
    }
    assert(pd == 1);
    assert(sx == sy);
    assert(x.magnitude() == y.magnitude());
    if x.magnitude() != 0 {
        assert(x.sign_negative() == y.sign_negative());
    }
}

/// Whether `v`, counted in units of `10^-28`, can be written exactly with
/// `scale` fractional digits and a magnitude below `2^96`.
pub open spec fn fits_at_scale(v: int, scale: nat) -> bool {
    &&& scale <= MAX_SCALE
    &&& -(MANTISSA_LIMIT * pow10((MAX_SCALE - scale) as nat)) < v
    &&& v < MANTISSA_LIMIT * pow10((MAX_SCALE - scale) as nat)
}

/// The larger of two scales.
pub open spec fn max_scale(a: nat, b: nat) -> nat {
    if a >= b {
        a
    } else {
        b
    }
}

/// A decimal amount: sign, 96-bit magnitude and scale, as `rust_decimal` stores it.
#[derive(Clone, Copy, Debug)]
pub struct Amount {
    pub(crate) negative: bool,
    pub(crate) mantissa: u128,
    pub(crate) scale: u32,
}

impl Amount {
    #[verifier::type_invariant]
    spec fn well_formed(self) -> bool {
        self.mantissa < MANTISSA_LIMIT && self.scale <= MAX_SCALE
    }

    /// The sign flag.
    pub closed spec fn sign_negative(self) -> bool {
        self.negative
    }

    /// The magnitude, without its sign.
    pub closed spec fn magnitude(self) -> nat {
        self.mantissa as nat
    }

    /// The number of fractional decimal digits.
    pub closed spec fn frac_digits(self) -> nat {
        self.scale as nat
    }

    /// Whether the parts are those of a `Decimal`: a magnitude below `2^96` and a
    /// scale of at most 28. Every amount is in range.
    pub open spec fn in_range(self) -> bool {
        self.magnitude() < MANTISSA_LIMIT && self.frac_digits() <= MAX_SCALE
    }

    /// Every amount is in range (costs nothing at run time).
    pub fn range_facts(&self)
        ensures
            self.in_range(),
    {
        proof {
            use_type_invariant(self);
        }
    }

    /// The signed mantissa: the value times `10^scale`.
    pub open spec fn signed_mantissa(self) -> int {
        if self.sign_negative() {
            -self.magnitude()
        } else {
            self.magnitude() as int
        }
    }

    /// The numeric value in units of `10^-28`.
    pub open spec fn units(self) -> int {
        self.signed_mantissa() * pow10((MAX_SCALE - self.frac_digits()) as nat)
    }

    /// Zero with scale 0, as a value.
    pub closed spec fn zero_value() -> Amount {
        Amount { negative: false, mantissa: 0, scale: 0 }
    }

    /// The parts and the numeric value of [`Amount::zero_value`].
    pub proof fn lemma_zero_value()
        ensures
            !Amount::zero_value().sign_negative(),
            Amount::zero_value().magnitude() == 0,
            Amount::zero_value().frac_digits() == 0,
            Amount::zero_value().units() == 0,
    {
        assert(0 * pow10(MAX_SCALE as nat) == 0) by (nonlinear_arith);
    }

    /// An amount of value zero has magnitude zero, and the other way round.
    pub proof fn lemma_zero_units(self)
        ensures
            (self.units() == 0) == (self.magnitude() == 0),
            self.units() > 0 ==> !self.sign_negative(),
    {
        lemma_pow10_positive((MAX_SCALE - self.frac_digits()) as nat);
        let p = pow10((MAX_SCALE - self.frac_digits()) as nat);
        let m = self.signed_mantissa();
        assert(m == 0 ==> m * p == 0) by (nonlinear_arith);
        assert(m != 0 && p >= 1 ==> m * p != 0) by (nonlinear_arith);
        assert(m < 0 && p >= 1 ==> m * p < 0) by (nonlinear_arith);
    }

    /// Zero, with scale 0.
    pub fn zero() -> (res: Amount)
        ensures
            res == Amount::zero_value(),
            !res.sign_negative(),
            res.magnitude() == 0,
            res.frac_digits() == 0,
            res.units() == 0,
    {
        let res = Amount { negative: false, mantissa: 0, scale: 0 };
        assert(res.units() == 0) by {
            assert(res.signed_mantissa() == 0);
            assert(0 * pow10(MAX_SCALE as nat) == 0) by (nonlinear_arith);
        }
        res
    }

    /// The amount with the given sign flag, magnitude and scale, or `None` when the
    /// magnitude is not below `2^96` or the scale exceeds 28.
    pub fn from_parts(negative: bool, mantissa: u128, scale: u32) -> (res: Option<Amount>)
        ensures
            res is Some <==> (mantissa < MANTISSA_LIMIT && scale <= MAX_SCALE),
            res matches Some(a) ==> a.sign_negative() == negative && a.magnitude() == mantissa
                && a.frac_digits() == scale,
    {
        if mantissa < MANTISSA_LIMIT && scale <= MAX_SCALE {
            Some(Amount { negative, mantissa, scale })
        } else {
            None
        }
    }

    /// The integer `v`, with scale 0.
    pub fn from_i64(v: i64) -> (res: Amount)
        ensures
            res.in_range(),
            res.sign_negative() == (v < 0),
            res.signed_mantissa() == v,
            res.frac_digits() == 0,
            res.units() == v * pow10(MAX_SCALE as nat),
    {
        let negative = v < 0;
        let wide: i128 = v as i128;
        let mantissa: u128 = if negative {
            (-wide) as u128
        } else {
            wide as u128
        };
        let res = Amount { negative, mantissa, scale: 0 };
        assert(res.signed_mantissa() == v);
        res
    }

    /// The sign flag (set for negative amounts; zero may carry it too).
    pub fn is_sign_negative(&self) -> (res: bool)
        ensures
            res == self.sign_negative(),
    {
        self.negative
    }

    /// The magnitude, without its sign.
    pub fn mantissa_abs(&self) -> (res: u128)
        ensures
            res == self.magnitude(),
    {
        self.mantissa
    }

    /// The number of fractional decimal digits.
    pub fn scale(&self) -> (res: u32)
        ensures
            res == self.frac_digits(),
    {
        self.scale
    }

    /// Whether the amount is written with its natural precision: no trailing zero
    /// after the decimal point, and zero as a plain unsigned `0`.
    pub open spec fn is_normal(self) -> bool {
        &&& (self.frac_digits() == 0 || self.magnitude() % 10 != 0)
        &&& (self.magnitude() == 0 ==> !self.sign_negative())
    }

    /// The amount with its natural precision: trailing fractional zeros dropped one
    /// at a time, then the sign of zero cleared.
    pub closed spec fn normal_form(self) -> Amount
        decreases self.frac_digits(),
    {
        if self.scale > 0 && self.mantissa % 10 == 0 {
            Amount { negative: self.negative, mantissa: self.mantissa / 10, scale: (self.scale - 1) as u32 }.normal_form()
        } else {
            Amount { negative: self.negative && self.mantissa != 0, mantissa: self.mantissa, scale: self.scale }
        }
    }

    /// The natural form of an amount has the same value, is normal, and is in range.
    pub proof fn lemma_normal_form(self)
        requires
            self.in_range(),
        ensures
            self.normal_form().units() == self.units(),
            self.normal_form().is_normal(),
            self.normal_form().in_range(),
            self.normal_form().frac_digits() <= self.frac_digits(),
        decreases self.frac_digits(),
    {
        if self.scale > 0 && self.mantissa % 10 == 0 {
            let b = Amount { negative: self.negative, mantissa: self.mantissa / 10, scale: (self.scale - 1) as u32 };
            let n = (MAX_SCALE - self.frac_digits()) as nat;
            assert(pow10(n + 1) == 10 * pow10(n));
            assert((MAX_SCALE - b.frac_digits()) as nat == n + 1);
            let q: int = b.magnitude() as int;
            assert(self.magnitude() == 10 * q);
            let p = pow10(n);
            assert(q * (10 * p) == (10 * q) * p) by (nonlinear_arith);
            assert((-q) * (10 * p) == (-(10 * q)) * p) by (nonlinear_arith);
            assert(b.units() == self.units());
            b.lemma_normal_form();
        } else {
            let r = self.normal_form();
            let p = pow10((MAX_SCALE - self.frac_digits()) as nat);
            assert(0 * p == 0) by (nonlinear_arith);
            assert(-0 * p == 0) by (nonlinear_arith);
            assert(r.units() == self.units());
        }
    }

    /// Two normal amounts of the same value are the same amount.
    pub proof fn lemma_normal_is_unique(self, other: Amount)
        requires
            self.in_range(),
            other.in_range(),
            self.is_normal(),
            other.is_normal(),
            self.units() == other.units(),
        ensures
            self == other,
    {
        if self.frac_digits() <= other.frac_digits() {
            lemma_same_value_same_parts(self, other);
        } else {
            lemma_same_value_same_parts(other, self);
        }
    }

    /// Amounts of the same value have the same natural form: the precision shown
    /// depends on the value alone.
    pub proof fn lemma_normal_form_by_value(self, other: Amount)
        requires
            self.in_range(),
            other.in_range(),
            self.units() == other.units(),
        ensures
            self.normal_form() == other.normal_form(),
    {
        self.lemma_normal_form();
        other.lemma_normal_form();
        self.normal_form().lemma_normal_is_unique(other.normal_form());
    }

    /// The same value with its natural precision: trailing fractional zeros dropped
    /// (`1.5000` becomes `1.5`), and zero, of either sign, as `0`.
    pub fn normalized(&self) -> (res: Amount)
        ensures
            res == self.normal_form(),
            res.units() == self.units(),
            res.is_normal(),
    {
        proof {
            use_type_invariant(self);
            self.lemma_normal_form();
        }
        let mut mantissa = self.mantissa;
        let mut scale = self.scale;
        while scale > 0 && mantissa % 10 == 0
            invariant
                mantissa <= self.mantissa,
                scale <= self.scale,
                (Amount { negative: self.negative, mantissa, scale }).normal_form() == self.normal_form(),
            decreases scale,
        {
            mantissa = mantissa / 10;
            scale = scale - 1;
        }
        Amount { negative: self.negative && mantissa != 0, mantissa, scale }
    }

    /// `self + other`, or `None` when the sum overflows the decimal range. When the
    /// exact sum fits in 96 bits at the larger of the two scales, it is that exact sum.
    pub fn checked_add(self, other: Amount) -> (res: Option<Amount>)
        ensures
        res == decimal_checked_add(self, other),
        res matches Some(r) ==> r.in_range(),
        res is None ==> !fits_at_scale(self.units() + other.units(), max_scale(self.frac_digits(), other.frac_digits())),
        res matches Some(r) ==> (fits_at_scale(self.units() + other.units(), max_scale(self.frac_digits(), other.frac_digits())) ==> r.units() == self.units() + other.units() && r.frac_digits() <= max_scale(self.frac_digits(), other.frac_digits())),
        res matches Some(r) ==> (fits_at_scale(self.units() + other.units(), max_scale(self.frac_digits(), other.frac_digits())) && self.magnitude() != 0 && other.magnitude() != 0 ==> r.frac_digits() == max_scale(self.frac_digits(), other.frac_digits())),
        other.magnitude() == 0 && self.magnitude() != 0 ==> res == Some(self),
        self.magnitude() == 0 ==> res == Some(other),
        sum_facts(self, other),
    {
        decimal_add(self, other)
    }

    /// `self - other`, or `None` when the difference overflows the decimal range. When
    /// the exact difference fits in 96 bits at the larger of the two scales, it is that
    /// exact difference.
    pub fn checked_sub(self, other: Amount) -> (res: Option<Amount>)
        ensures
        res == decimal_checked_sub(self, other),
        res matches Some(r) ==> r.in_range(),
        res is None ==> !fits_at_scale(self.units() - other.units(), max_scale(self.frac_digits(), other.frac_digits())),
        res matches Some(r) ==> (fits_at_scale(self.units() - other.units(), max_scale(self.frac_digits(), other.frac_digits())) ==> r.units() == self.units() - other.units() && r.frac_digits() <= max_scale(self.frac_digits(), other.frac_digits())),
        res matches Some(r) ==> (fits_at_scale(self.units() - other.units(), max_scale(self.frac_digits(), other.frac_digits())) && self.magnitude() != 0 && other.magnitude() != 0 ==> r.frac_digits() == max_scale(self.frac_digits(), other.frac_digits())),
        other.magnitude() == 0 && self.magnitude() != 0 ==> res == Some(self),
        res is Some || self.magnitude() != 0,
        res matches Some(r) ==> (self.magnitude() == 0 ==> r.units() == -other.units() && r.frac_digits() == other.frac_digits()),
        res is Some || other.units() < 0 || self.units() < other.units(),
        res matches Some(r) ==> (0 <= other.units() <= self.units() ==> r.units() >= 0),
        difference_facts(self, other),
    {
        decimal_sub(self, other)
    }

    /// Whether `self` is numerically smaller than `other`.
    pub fn less_than(&self, other: &Amount) -> (res: bool)
        ensures
            res == (self.units() < other.units()),
    {
        decimal_lt(*self, *other)
    }
}

impl PartialEq for Amount {
    /// Numeric equality, as `Decimal`'s `==` (so `10` equals `10.0`).
    fn eq(&self, other: &Amount) -> (res: bool) {
        decimal_eq(*self, *other)
    }
}

impl vstd::std_specs::cmp::PartialEqSpecImpl for Amount {
    open spec fn obeys_eq_spec() -> bool {
        true
    }

    open spec fn eq_spec(&self, other: &Amount) -> bool {
        self.units() == other.units()
    }
}

/// What `rust_decimal::Decimal::checked_add` returns for the two amounts.
pub uninterp spec fn decimal_checked_add(a: Amount, b: Amount) -> Option<Amount>;

/// What `rust_decimal::Decimal::checked_sub` returns for the two amounts.
pub uninterp spec fn decimal_checked_sub(a: Amount, b: Amount) -> Option<Amount>;

/// What is known of `Decimal`'s sum of `a` and `b`: it stays in range; it is `None`
/// only when the exact sum does not fit at the larger scale, and when it fits it is
/// that exact sum at a scale no larger than that (the larger scale itself when both
/// operands are non-zero); a zero operand gives the other one back.
pub open spec fn sum_facts(a: Amount, b: Amount) -> bool {
    let s = max_scale(a.frac_digits(), b.frac_digits());
    let v = a.units() + b.units();
    &&& decimal_checked_add(a, b) matches Some(r) ==> r.in_range()
    &&& decimal_checked_add(a, b) is None ==> !fits_at_scale(v, s)
    &&& decimal_checked_add(a, b) matches Some(r) ==> (fits_at_scale(v, s) ==> r.units() == v && r.frac_digits() <= s)
    &&& decimal_checked_add(a, b) matches Some(r) ==> (fits_at_scale(v, s) && a.magnitude() != 0 && b.magnitude() != 0
        ==> r.frac_digits() == s)
    &&& b.magnitude() == 0 && a.magnitude() != 0 ==> decimal_checked_add(a, b) == Some(a)
    &&& a.magnitude() == 0 ==> decimal_checked_add(a, b) == Some(b)
}

/// What is known of `Decimal`'s difference `a - b`: as for [`sum_facts`], and
/// moreover subtracting a non-negative amount no larger than `a` never overflows
/// and gives a non-negative result.
pub open spec fn difference_facts(a: Amount, b: Amount) -> bool {
    let s = max_scale(a.frac_digits(), b.frac_digits());
    let v = a.units() - b.units();
    &&& decimal_checked_sub(a, b) matches Some(r) ==> r.in_range()
    &&& decimal_checked_sub(a, b) is None ==> !fits_at_scale(v, s)
    &&& decimal_checked_sub(a, b) matches Some(r) ==> (fits_at_scale(v, s) ==> r.units() == v && r.frac_digits() <= s)
    &&& decimal_checked_sub(a, b) matches Some(r) ==> (fits_at_scale(v, s) && a.magnitude() != 0 && b.magnitude() != 0
        ==> r.frac_digits() == s)
    &&& b.magnitude() == 0 && a.magnitude() != 0 ==> decimal_checked_sub(a, b) == Some(a)
    &&& a.magnitude() == 0 ==> (decimal_checked_sub(a, b) matches Some(r) && r.units() == -b.units() && r.frac_digits()
        == b.frac_digits())
    &&& 0 <= b.units() <= a.units() ==> (decimal_checked_sub(a, b) matches Some(r) && r.units() >= 0)
}

/// With the known facts, a sum that fits is exact.
pub proof fn lemma_fitting_sum_is_exact(a: Amount, b: Amount)
    requires
        sum_facts(a, b),
        fits_at_scale(a.units() + b.units(), max_scale(a.frac_digits(), b.frac_digits())),
    ensures
        exact_sum(a, b),
{
}

/// With the known facts, a difference that fits is exact.
pub proof fn lemma_fitting_difference_is_exact(a: Amount, b: Amount)
    requires
        difference_facts(a, b),
        fits_at_scale(a.units() - b.units(), max_scale(a.frac_digits(), b.frac_digits())),
    ensures
        exact_difference(a, b),
{
}

/// Whether `Decimal` adds `a` and `b` without rounding or overflow.
pub open spec fn exact_sum(a: Amount, b: Amount) -> bool {
    decimal_checked_add(a, b) matches Some(r) && r.units() == a.units() + b.units()
}

/// Whether `Decimal` subtracts `b` from `a` without rounding or overflow.
pub open spec fn exact_difference(a: Amount, b: Amount) -> bool {
    decimal_checked_sub(a, b) matches Some(r) && r.units() == a.units() - b.units()
}

/// Calls `rust_decimal::Decimal::checked_add`.
///
/// Trusted: the result is the crate's (`ops::add_impl`), named by
/// [`decimal_checked_add`]. The crate computes the sum at the larger of the two
/// scales with full precision and only rounds or reports overflow when that
/// exact sum needs more than 96 bits; so when it fits, the result is that exact
/// sum. Every `Decimal` it returns has a magnitude below `2^96` and a scale of at
/// most 28, which is what an [`Amount`] holds.
#[verifier::external_body]
fn decimal_add(a: Amount, b: Amount) -> (res: Option<Amount>)
    ensures
        res == decimal_checked_add(a, b),
        res matches Some(r) ==> r.in_range(),
        res is None ==> !fits_at_scale(a.units() + b.units(), max_scale(a.frac_digits(), b.frac_digits())),
        res matches Some(r) ==> (fits_at_scale(a.units() + b.units(), max_scale(a.frac_digits(), b.frac_digits())) ==> r.units() == a.units() + b.units() && r.frac_digits() <= max_scale(a.frac_digits(), b.frac_digits())),
        res matches Some(r) ==> (fits_at_scale(a.units() + b.units(), max_scale(a.frac_digits(), b.frac_digits())) && a.magnitude() != 0 && b.magnitude() != 0 ==> r.frac_digits() == max_scale(a.frac_digits(), b.frac_digits())),
        b.magnitude() == 0 && a.magnitude() != 0 ==> res == Some(a),
        a.magnitude() == 0 ==> res == Some(b),
{
    let mut x = Decimal::from_parts(a.mantissa as u32, (a.mantissa >> 32) as u32, (a.mantissa >> 64) as u32, a.negative, a.scale);
    x.set_sign_negative(a.negative);
    let mut y = Decimal::from_parts(b.mantissa as u32, (b.mantissa >> 32) as u32, (b.mantissa >> 64) as u32, b.negative, b.scale);
    y.set_sign_negative(b.negative);
    x.checked_add(y).map(|d| Amount { negative: d.is_sign_negative(), mantissa: d.mantissa().unsigned_abs(), scale: d.scale() })
}

/// Calls `rust_decimal::Decimal::checked_sub`.
///
/// Trusted: the result is the crate's (`ops::sub_impl`, the same routine as
/// addition with the second sign flipped), named by [`decimal_checked_sub`].
/// When the exact difference fits in 96 bits at the larger of the two scales,
/// the result is that exact difference.
#[verifier::external_body]
fn decimal_sub(a: Amount, b: Amount) -> (res: Option<Amount>)
    ensures
        res == decimal_checked_sub(a, b),
        res matches Some(r) ==> r.in_range(),
        res is None ==> !fits_at_scale(a.units() - b.units(), max_scale(a.frac_digits(), b.frac_digits())),
        res matches Some(r) ==> (fits_at_scale(a.units() - b.units(), max_scale(a.frac_digits(), b.frac_digits())) ==> r.units() == a.units() - b.units() && r.frac_digits() <= max_scale(a.frac_digits(), b.frac_digits())),
        res matches Some(r) ==> (fits_at_scale(a.units() - b.units(), max_scale(a.frac_digits(), b.frac_digits())) && a.magnitude() != 0 && b.magnitude() != 0 ==> r.frac_digits() == max_scale(a.frac_digits(), b.frac_digits())),
        b.magnitude() == 0 && a.magnitude() != 0 ==> res == Some(a),
        res is Some || a.magnitude() != 0,
        res matches Some(r) ==> (a.magnitude() == 0 ==> r.units() == -b.units() && r.frac_digits() == b.frac_digits()),
        res is Some || b.units() < 0 || a.units() < b.units(),
        res matches Some(r) ==> (0 <= b.units() <= a.units() ==> r.units() >= 0),
{
    let mut x = Decimal::from_parts(a.mantissa as u32, (a.mantissa >> 32) as u32, (a.mantissa >> 64) as u32, a.negative, a.scale);
    x.set_sign_negative(a.negative);
    let mut y = Decimal::from_parts(b.mantissa as u32, (b.mantissa >> 32) as u32, (b.mantissa >> 64) as u32, b.negative, b.scale);
    y.set_sign_negative(b.negative);
    x.checked_sub(y).map(|d| Amount { negative: d.is_sign_negative(), mantissa: d.mantissa().unsigned_abs(), scale: d.scale() })
}

/// Calls `rust_decimal::Decimal`'s `==` on the two amounts.
///
/// Trusted: `Decimal`'s equality compares numeric values (equal bit patterns, or
/// `cmp_impl` returning `Equal`), so `1.50` equals `1.5`.
#[verifier::external_body]
fn decimal_eq(a: Amount, b: Amount) -> (res: bool)
    ensures
        res == (a.units() == b.units()),
{
    let mut x = Decimal::from_parts(a.mantissa as u32, (a.mantissa >> 32) as u32, (a.mantissa >> 64) as u32, a.negative, a.scale);
    x.set_sign_negative(a.negative);
    let mut y = Decimal::from_parts(b.mantissa as u32, (b.mantissa >> 32) as u32, (b.mantissa >> 64) as u32, b.negative, b.scale);
    y.set_sign_negative(b.negative);
    x == y
}

/// Calls `rust_decimal::Decimal`'s `<` on the two amounts.
///
/// Trusted: `Decimal`'s ordering compares numeric values (`ops::cmp_impl`), so the
/// result is whether the value of `a` is below the value of `b`.
#[verifier::external_body]
fn decimal_lt(a: Amount, b: Amount) -> (res: bool)
    ensures
        res == (a.units() < b.units()),
{
    let mut x = Decimal::from_parts(a.mantissa as u32, (a.mantissa >> 32) as u32, (a.mantissa >> 64) as u32, a.negative, a.scale);
    x.set_sign_negative(a.negative);
    let mut y = Decimal::from_parts(b.mantissa as u32, (b.mantissa >> 32) as u32, (b.mantissa >> 64) as u32, b.negative, b.scale);
    y.set_sign_negative(b.negative);
    x < y
}

} // verus!
