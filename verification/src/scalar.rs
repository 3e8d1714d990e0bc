//! Binary64 numbers as bit patterns.
//!
//! A [`Scalar`] is the 64-bit IEEE 754 encoding of a number: one sign bit, eleven
//! exponent bits and fifty-two fraction bits. Everything that can be read off
//! the encoding without rounding lives here: classification, negation,
//! absolute value, the numeric order and clamping. Arithmetic that rounds is
//! left to the caller, who hands its results back as `Scalar`s.
use vstd::prelude::*;
use vstd::arithmetic::power2::pow2;
use vstd::arithmetic::power2::lemma_pow2_pos;
use vstd::arithmetic::power2::lemma_pow2_strictly_increases;
use vstd::arithmetic::power2::lemma2_to64;

verus! {

/// The sign bit of the encoding.
pub const SIGN_BIT: u64 = 0x8000_0000_0000_0000;

/// The encoding of positive infinity; larger magnitudes encode NaN.
pub const INFINITY_BITS: u64 = 0x7ff0_0000_0000_0000;

/// Two to the power 52: the weight of the lowest exponent bit.
pub const FRACTION_SPAN: u64 = 0x0010_0000_0000_0000;

/// The encoding of `1.0`.
pub const ONE_BITS: u64 = 0x3ff0_0000_0000_0000;

/// The encoding of `2^-52`, the gap between `1.0` and the next number.
pub const EPSILON_BITS: u64 = 0x3cb0_0000_0000_0000;

/// An IEEE 754 binary64 number, held as its encoding.
#[derive(Clone, Copy, Debug)]
pub struct Scalar {
    pub bits: u64,
}

impl Scalar {
    /// The encoding without its sign bit.
    pub open spec fn magnitude(self) -> int {
        if self.bits >= SIGN_BIT {
            self.bits - SIGN_BIT
        } else {
            self.bits as int
        }
    }

    /// Whether the sign bit is set (true of `-0.0` and of some NaNs too).
    pub open spec fn sign_negative(self) -> bool {
        self.bits >= SIGN_BIT
    }

    /// Whether this is a NaN.
    pub open spec fn nan(self) -> bool {
        self.magnitude() > INFINITY_BITS
    }

    /// Whether this is neither infinite nor a NaN.
    pub open spec fn finite(self) -> bool {
        self.magnitude() < INFINITY_BITS
    }

    /// The position of this number in the numeric order: the magnitude,
    /// counted downwards from zero for negative numbers. Both zeros have
    /// rank 0. Meaningful for every non-NaN value.
    pub open spec fn rank(self) -> int {
        if self.sign_negative() {
            -self.magnitude()
        } else {
            self.magnitude()
        }
    }

    /// `self < other` as IEEE 754 defines it: false whenever a NaN is involved.
    pub open spec fn lt_spec(self, other: Scalar) -> bool {
        !self.nan() && !other.nan() && self.rank() < other.rank()
    }

    /// `self <= other` as IEEE 754 defines it.
    pub open spec fn le_spec(self, other: Scalar) -> bool {
        !self.nan() && !other.nan() && self.rank() <= other.rank()
    }

    /// The number with the opposite sign bit.
    pub open spec fn neg_spec(self) -> Scalar {
        if self.bits >= SIGN_BIT {
            Scalar { bits: (self.bits - SIGN_BIT) as u64 }
        } else {
            Scalar { bits: (self.bits + SIGN_BIT) as u64 }
        }
    }

    /// The number with a cleared sign bit.
    pub open spec fn abs_spec(self) -> Scalar {
        Scalar { bits: self.magnitude() as u64 }
    }

    /// `self` restricted to `[low, high]`; a NaN stays as it is.
    pub open spec fn clamp_spec(self, low: Scalar, high: Scalar) -> Scalar {
        if self.lt_spec(low) {
            low
        } else if high.lt_spec(self) {
            high
        } else {
            self
        }
    }

    /// The biased exponent: the eleven bits above the fraction.
    pub open spec fn exponent(self) -> int {
        self.magnitude() / (FRACTION_SPAN as int)
    }

    /// The fifty-two fraction bits.
    pub open spec fn fraction(self) -> int {
        self.magnitude() % (FRACTION_SPAN as int)
    }

    /// The integer significand: the fraction, with the implicit leading bit
    /// for every number that is not subnormal.
    pub open spec fn significand(self) -> int {
        if self.exponent() == 0 {
            self.fraction()
        } else {
            FRACTION_SPAN + self.fraction()
        }
    }

    /// The power of two by which the significand is scaled, counted from the
    /// subnormal range: 0 for subnormals and the smallest normal numbers.
    pub open spec fn shift(self) -> nat {
        if self.exponent() <= 1 {
            0
        } else {
            (self.exponent() - 1) as nat
        }
    }

    /// The value of a finite number, counted in units of `2^-1074` (the
    /// smallest positive binary64 number): every finite value is a whole
    /// number of them.
    pub open spec fn quanta(self) -> int {
        if self.sign_negative() {
            -(self.significand() * pow2(self.shift()))
        } else {
            self.significand() * pow2(self.shift())
        }
    }

    /// Wraps an encoding.
    pub fn from_bits(bits: u64) -> (r: Scalar)
        ensures
            r.bits == bits,
    {
        Scalar { bits }
    }

    /// The encoding.
    pub fn to_bits(self) -> (bits: u64)
        ensures
            bits == self.bits,
    {
        self.bits
    }

    /// Positive zero.
    pub fn zero() -> (r: Scalar)
        ensures
            r.bits == 0,
    {
        Scalar { bits: 0 }
    }

    /// The number one.
    pub fn one() -> (r: Scalar)
        ensures
            r.bits == ONE_BITS,
    {
        Scalar { bits: ONE_BITS }
    }

    /// Positive infinity.
    pub fn infinity() -> (r: Scalar)
        ensures
            r.bits == INFINITY_BITS,
    {
        Scalar { bits: INFINITY_BITS }
    }

    /// The gap between one and the next larger number.
    pub fn epsilon() -> (r: Scalar)
        ensures
            r.bits == EPSILON_BITS,
    {
        Scalar { bits: EPSILON_BITS }
    }

    fn magnitude_bits(self) -> (m: u64)
        ensures
            m == self.magnitude(),
    {
        if self.bits >= SIGN_BIT {
            self.bits - SIGN_BIT
        } else {
            self.bits
        }
    }

    /// Whether the sign bit is set.
    pub fn is_sign_negative(self) -> (r: bool)
        ensures
            r == self.sign_negative(),
    {
        self.bits >= SIGN_BIT
    }

    /// Whether this is a NaN.
    pub fn is_nan(self) -> (r: bool)
        ensures
            r == self.nan(),
    {
        self.magnitude_bits() > INFINITY_BITS
    }

    /// Whether this is neither infinite nor a NaN.
    pub fn is_finite(self) -> (r: bool)
        ensures
            r == self.finite(),
    {
        self.magnitude_bits() < INFINITY_BITS
    }

    /// The number with the opposite sign: exact for every value, NaN included.
    pub fn neg(self) -> (r: Scalar)
        ensures
            r == self.neg_spec(),
            r.magnitude() == self.magnitude(),
            r.sign_negative() == !self.sign_negative(),
    {
        if self.bits >= SIGN_BIT {
            Scalar { bits: self.bits - SIGN_BIT }
        } else {
            Scalar { bits: self.bits + SIGN_BIT }
        }
    }

    /// The absolute value: the same magnitude with a cleared sign bit.
    pub fn abs(self) -> (r: Scalar)
        ensures
            r == self.abs_spec(),
            r.magnitude() == self.magnitude(),
            !r.sign_negative(),
    {
        Scalar { bits: self.magnitude_bits() }
    }

    /// `self < other`.
    pub fn lt(self, other: Scalar) -> (r: bool)
        ensures
            r == self.lt_spec(other),
    {
        if self.is_nan() || other.is_nan() {
            return false;
        }
        let a = self.magnitude_bits();
        let b = other.magnitude_bits();
        if self.is_sign_negative() {
            if other.is_sign_negative() {
                b < a
            } else {
                a != 0 || b != 0
            }
        } else {
            if other.is_sign_negative() {
                false
            } else {
                a < b
            }
        }
    }

    /// `self <= other`.
    pub fn le(self, other: Scalar) -> (r: bool)
        ensures
            r == self.le_spec(other),
    {
        if self.is_nan() || other.is_nan() {
            return false;
        }
        let a = self.magnitude_bits();
        let b = other.magnitude_bits();
        if self.is_sign_negative() {
            if other.is_sign_negative() {
                b <= a
            } else {
                true
            }
        } else {
            if other.is_sign_negative() {
                a == 0 && b == 0
            } else {
                a <= b
            }
        }
    }

    /// `self > other`.
    pub fn gt(self, other: Scalar) -> (r: bool)
        ensures
            r == other.lt_spec(self),
    {
        other.lt(self)
    }

    /// `self >= other`.
    pub fn ge(self, other: Scalar) -> (r: bool)
        ensures
            r == other.le_spec(self),
    {
        other.le(self)
    }
}

impl Default for Scalar {
    /// Positive zero.
    fn default() -> (r: Scalar)
        ensures
            r.bits == 0,
    {
        Scalar { bits: 0 }
    }
}

/// What a magnitude is worth in units of `2^-1074`.
spec fn units(magnitude: int) -> int {
    let e = magnitude / (FRACTION_SPAN as int);
    let f = magnitude % (FRACTION_SPAN as int);
    if e == 0 {
        f
    } else {
        (FRACTION_SPAN + f) * pow2((e - 1) as nat)
    }
}

/// A magnitude with exponent `e >= 1` is worth at least `2^52 * 2^(e-1)` and
/// less than twice that.
proof fn lemma_units_bounds(m: int)
    requires
        0 <= m,
        m / (FRACTION_SPAN as int) >= 1,
    ensures
        FRACTION_SPAN * pow2((m / (FRACTION_SPAN as int) - 1) as nat) <= units(m),
        units(m) < 2 * FRACTION_SPAN * pow2((m / (FRACTION_SPAN as int) - 1) as nat),
{
    let e = m / (FRACTION_SPAN as int);
    let f = m % (FRACTION_SPAN as int);
    let p = pow2((e - 1) as nat) as int;
    lemma_pow2_pos((e - 1) as nat);
    assert(FRACTION_SPAN * p <= (FRACTION_SPAN + f) * p) by (nonlinear_arith)
        requires
            0 <= f,
            0 < p,
    ;
    assert((FRACTION_SPAN + f) * p < 2 * FRACTION_SPAN * p) by (nonlinear_arith)
        requires
            f < FRACTION_SPAN,
            0 < p,
    ;
}

/// A larger magnitude is worth more.
proof fn lemma_units_increase(m1: int, m2: int)
    requires
        0 <= m1 < m2,
    ensures
        0 <= units(m1) < units(m2),
{
    let span = FRACTION_SPAN as int;
    let e1 = m1 / span;
    let e2 = m2 / span;
    let f1 = m1 % span;
    let f2 = m2 % span;
    assert(m1 == e1 * span + f1 && m2 == e2 * span + f2 && e1 <= e2) by (nonlinear_arith)
        requires
            0 <= m1 < m2,
            span == 0x0010_0000_0000_0000,
            e1 == m1 / span,
            e2 == m2 / span,
            f1 == m1 % span,
            f2 == m2 % span,
    ;
    if e1 >= 1 {
        lemma_units_bounds(m1);
    }
    if e2 >= 1 {
        lemma_units_bounds(m2);
    }
    assert(0 <= e1) by (nonlinear_arith)
        requires
            0 <= m1,
            span == 0x0010_0000_0000_0000,
            e1 == m1 / span,
    ;
    if e1 == e2 {
        if e1 >= 1 {
            let p = pow2((e1 - 1) as nat) as int;
            lemma_pow2_pos((e1 - 1) as nat);
            assert((span + f1) * p < (span + f2) * p) by (nonlinear_arith)
                requires
                    f1 < f2,
                    0 < p,
            ;
        }
    } else {
        let upper = pow2((e2 - 1) as nat) as int;
        lemma_pow2_pos((e2 - 1) as nat);
        assert(span <= span * upper) by (nonlinear_arith)
            requires
                1 <= upper,
                0 < span,
        ;
        if e1 >= 1 {
            let lower = pow2((e1 - 1) as nat) as int;
            vstd::arithmetic::power2::lemma_pow2_unfold(e1 as nat);
            if e1 < e2 - 1 {
                lemma_pow2_strictly_increases(e1 as nat, (e2 - 1) as nat);
            }
            assert(2 * span * lower <= span * upper) by (nonlinear_arith)
                requires
                    2 * lower <= upper,
                    0 < span,
            ;
        }
    }
}

/// The order of two finite numbers is the order of their values: `rank`
/// compares as `quanta` does.
pub proof fn lemma_rank_orders_values(a: Scalar, b: Scalar)
    requires
        a.finite(),
        b.finite(),
    ensures
        (a.rank() < b.rank()) == (a.quanta() < b.quanta()),
        (a.rank() == b.rank()) == (a.quanta() == b.quanta()),
{
    lemma_quanta_is_units(a);
    lemma_quanta_is_units(b);
    let ma = a.magnitude();
    let mb = b.magnitude();
    lemma2_to64();
    assert(units(0) == 0);
    if ma < mb {
        lemma_units_increase(ma, mb);
    } else if mb < ma {
        lemma_units_increase(mb, ma);
    }
    if 0 < ma {
        lemma_units_increase(0, ma);
    }
    if 0 < mb {
        lemma_units_increase(0, mb);
    }
}

/// `quanta` is `units` of the magnitude, with the sign.
proof fn lemma_quanta_is_units(a: Scalar)
    ensures
        a.quanta() == (if a.sign_negative() {
            -units(a.magnitude())
        } else {
            units(a.magnitude())
        }),
{
    lemma2_to64();
    if a.exponent() == 0 {
        assert(a.significand() * pow2(0) == a.significand()) by (nonlinear_arith)
            requires
                pow2(0) == 1,
        ;
    }
}

/// The named encodings stand for their numbers: with values counted in units
/// of `2^-1074`, one is `2^1074` units and the gap after one is `2^-52` of
/// that.
pub proof fn lemma_one_and_epsilon()
    ensures
        (Scalar { bits: ONE_BITS }).quanta() == pow2(1074),
        (Scalar { bits: EPSILON_BITS }).quanta() == pow2(1022),
        (Scalar { bits: 0 }).quanta() == 0,
{
    let one = Scalar { bits: ONE_BITS };
    let eps = Scalar { bits: EPSILON_BITS };
    vstd::arithmetic::power2::lemma2_to64_rest();
    lemma2_to64();
    assert(one.exponent() == 1023 && one.fraction() == 0);
    assert(eps.exponent() == 971 && eps.fraction() == 0);
    vstd::arithmetic::power2::lemma_pow2_adds(52, 1022);
    vstd::arithmetic::power2::lemma_pow2_adds(52, 970);
    assert((Scalar { bits: 0 }).significand() == 0);
    assert(0 * pow2(0) == 0);
}

/// Negation reverses the order.
pub proof fn lemma_neg_reverses_order(a: Scalar, b: Scalar)
    ensures
        a.neg_spec().nan() == a.nan(),
        a.neg_spec().rank() == -a.rank(),
        a.neg_spec().neg_spec() == a,
        a.lt_spec(b) == b.neg_spec().lt_spec(a.neg_spec()),
        a.le_spec(b) == b.neg_spec().le_spec(a.neg_spec()),
{
}

/// The order is a total preorder on the numbers that are not NaN, and `<` is
/// its strict part.
pub proof fn lemma_order_is_total(a: Scalar, b: Scalar, c: Scalar)
    ensures
        !a.nan() ==> a.le_spec(a),
        !a.nan() && !b.nan() ==> a.le_spec(b) || b.le_spec(a),
        a.le_spec(b) && b.le_spec(c) ==> a.le_spec(c),
        a.lt_spec(b) && b.le_spec(c) ==> a.lt_spec(c),
        a.le_spec(b) && b.lt_spec(c) ==> a.lt_spec(c),
        a.lt_spec(b) == (a.le_spec(b) && !b.le_spec(a)),
{
}

/// Restricts `x` to the interval `[min, max]`. A NaN `x` is returned as it
/// is. The bounds must be ordered, which rules out NaN bounds.
pub fn clamp(x: Scalar, min: Scalar, max: Scalar) -> (r: Scalar)
    requires
        min.le_spec(max),
    ensures
        r == x.clamp_spec(min, max),
        x.nan() ==> r == x,
        !x.nan() ==> min.le_spec(r) && r.le_spec(max),
{
    if x.lt(min) {
        min
    } else if x.gt(max) {
        max
    } else {
        x
    }
}

} // verus!
