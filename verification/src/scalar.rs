//! Numbers that are carried, not computed with: single-precision values held
//! by their IEEE 754 bit patterns.

use vstd::prelude::*;

verus! {

/// Bit pattern of `0.0`.
pub const ZERO_BITS: u32 = 0;

/// Bit pattern of `1.0`.
pub const ONE_BITS: u32 = 0x3f80_0000;

/// Bit pattern of the largest single-precision value below `1.0`.
pub const BELOW_ONE_BITS: u32 = 0x3f7f_ffff;

/// The sign bit.
pub const SIGN_BIT: u32 = 0x8000_0000;

/// A single-precision number, held by its bit pattern.
#[derive(Clone, Copy, Debug, PartialEq, Eq, Structural, Hash)]
pub struct Scalar {
    pub bits: u32,
}

/// A pair of numbers: a position, a size or a scale per axis.
#[derive(Clone, Copy, Debug, PartialEq, Eq, Structural, Hash)]
pub struct Point {
    pub x: Scalar,
    pub y: Scalar,
}

/// A linear-light colour with alpha.
#[derive(Clone, Copy, Debug, PartialEq, Eq, Structural, Hash)]
pub struct Rgba {
    pub r: Scalar,
    pub g: Scalar,
    pub b: Scalar,
    pub a: Scalar,
}

impl View for Scalar {
    type V = Scalar;

    open spec fn view(&self) -> Scalar {
        *self
    }
}

impl View for Point {
    type V = Point;

    open spec fn view(&self) -> Point {
        *self
    }
}

/// The number with bit pattern `bits`.
pub open spec fn scalar(bits: u32) -> Scalar {
    Scalar { bits }
}

/// The number `0.0`.
pub open spec fn zero() -> Scalar {
    scalar(ZERO_BITS)
}

/// The number `1.0`.
pub open spec fn one() -> Scalar {
    scalar(ONE_BITS)
}

/// `s` with the opposite sign.
pub open spec fn negated(s: Scalar) -> Scalar {
    if s.bits < SIGN_BIT {
        scalar((s.bits + SIGN_BIT) as u32)
    } else {
        scalar((s.bits - SIGN_BIT) as u32)
    }
}

impl Scalar {
    pub fn from_bits(bits: u32) -> (r: Self)
        ensures
            r == scalar(bits),
    {
        Scalar { bits }
    }

    pub fn zero() -> (r: Self)
        ensures
            r == zero(),
    {
        Scalar { bits: ZERO_BITS }
    }

    pub fn one() -> (r: Self)
        ensures
            r == one(),
    {
        Scalar { bits: ONE_BITS }
    }

    /// The number with the opposite sign.
    pub fn neg(self) -> (r: Self)
        ensures
            r == negated(self),
    {
        if self.bits < SIGN_BIT {
            Scalar { bits: self.bits + SIGN_BIT }
        } else {
            Scalar { bits: self.bits - SIGN_BIT }
        }
    }

    /// Whether the number is `1.0` to within one unit in the last place of `1.0`.
    pub fn is_about_one(self) -> (r: bool)
        ensures
            r == about_one(self),
    {
        self.bits == ONE_BITS || self.bits == BELOW_ONE_BITS
    }
}

/// Whether `s` differs from `1.0` by less than the gap above `1.0`: only `1.0`
/// itself and its predecessor do.
pub open spec fn about_one(s: Scalar) -> bool {
    s.bits == ONE_BITS || s.bits == BELOW_ONE_BITS
}

/// Bit pattern of positive infinity.
pub const INFINITY_BITS: u32 = 0x7f80_0000;

/// The bit pattern of `s` without its sign.
pub open spec fn magnitude(s: Scalar) -> int {
    (s.bits % SIGN_BIT) as int
}

/// Whether `s` is no number.
pub open spec fn not_a_number(s: Scalar) -> bool {
    magnitude(s) > INFINITY_BITS
}

/// Whether `s` is a finite number.
pub open spec fn finite(s: Scalar) -> bool {
    magnitude(s) < INFINITY_BITS
}

/// An integer that orders numbers as their values do: the magnitude with the
/// sign of the number. Both zeros map to 0.
pub open spec fn order_key(s: Scalar) -> int {
    if s.bits < SIGN_BIT {
        magnitude(s)
    } else {
        -magnitude(s)
    }
}

/// Whether `a < b` as numbers; false if either is no number.
pub open spec fn less(a: Scalar, b: Scalar) -> bool {
    !not_a_number(a) && !not_a_number(b) && order_key(a) < order_key(b)
}

/// The smaller of two numbers; the other one if one is no number.
pub open spec fn smaller(a: Scalar, b: Scalar) -> Scalar {
    if not_a_number(a) || less(b, a) {
        b
    } else {
        a
    }
}

/// The larger of two numbers; the other one if one is no number.
pub open spec fn larger(a: Scalar, b: Scalar) -> Scalar {
    if not_a_number(a) || less(a, b) {
        b
    } else {
        a
    }
}

/// `s` brought between `low` and `high`; what is no number stays as it is.
pub open spec fn clamped(s: Scalar, low: Scalar, high: Scalar) -> Scalar {
    if less(s, low) {
        low
    } else if less(high, s) {
        high
    } else {
        s
    }
}

/// A number that is brought between bounds lies between them.
pub proof fn clamped_in_bounds(s: Scalar, low: Scalar, high: Scalar)
    requires
        !not_a_number(s),
        !not_a_number(low),
        !not_a_number(high),
        !less(high, low),
    ensures
        !less(clamped(s, low, high), low),
        !less(high, clamped(s, low, high)),
{
}

/// The order of numbers is transitive.
pub proof fn less_transitive(a: Scalar, b: Scalar, c: Scalar)
    requires
        less(a, b),
        less(b, c),
    ensures
        less(a, c),
{
}

impl Scalar {
    fn magnitude(self) -> (r: u32)
        ensures
            r == magnitude(self),
    {
        self.bits % SIGN_BIT
    }

    pub fn is_nan(self) -> (r: bool)
        ensures
            r == not_a_number(self),
    {
        self.magnitude() > INFINITY_BITS
    }

    pub fn is_finite(self) -> (r: bool)
        ensures
            r == finite(self),
    {
        self.magnitude() < INFINITY_BITS
    }

    /// Whether this number is less than `other`.
    pub fn is_less(self, other: Scalar) -> (r: bool)
        ensures
            r == less(self, other),
    {
        let a: i64 = if self.bits < SIGN_BIT {
            self.magnitude() as i64
        } else {
            -(self.magnitude() as i64)
        };
        let b: i64 = if other.bits < SIGN_BIT {
            other.magnitude() as i64
        } else {
            -(other.magnitude() as i64)
        };
        !self.is_nan() && !other.is_nan() && a < b
    }

    /// The smaller of this number and `other`.
    pub fn min_with(self, other: Scalar) -> (r: Scalar)
        ensures
            r == smaller(self, other),
    {
        if self.is_nan() || other.is_less(self) {
            other
        } else {
            self
        }
    }

    /// The larger of this number and `other`.
    pub fn max_with(self, other: Scalar) -> (r: Scalar)
        ensures
            r == larger(self, other),
    {
        if self.is_nan() || self.is_less(other) {
            other
        } else {
            self
        }
    }

    /// This number brought between `low` and `high`.
    pub fn clamp_to(self, low: Scalar, high: Scalar) -> (r: Scalar)
        ensures
            r == clamped(self, low, high),
    {
        if self.is_less(low) {
            low
        } else if high.is_less(self) {
            high
        } else {
            self
        }
    }
}

impl Default for Scalar {
    fn default() -> (r: Self)
        ensures
            r == zero(),
    {
        Scalar::zero()
    }
}

/// Negating twice gives the number back.
pub proof fn negate_twice(s: Scalar)
    ensures
        negated(negated(s)) == s,
{
}

/// Turning signs round turns the order round.
pub proof fn negation_turns_the_order_round(a: Scalar, b: Scalar)
    ensures
        less(a, b) <==> less(negated(b), negated(a)),
        not_a_number(negated(a)) == not_a_number(a),
        finite(negated(a)) == finite(a),
{
    let m = SIGN_BIT as int;
    assert(negated(a).bits as int % m == a.bits as int % m);
    assert(negated(b).bits as int % m == b.bits as int % m);
}

/// Zero lies below one, and a number is positive, negative or zero.
pub proof fn zero_lies_below_one(s: Scalar)
    requires
        !not_a_number(s),
    ensures
        less(zero(), one()),
        less(negated(one()), zero()),
        less(s, zero()) ==> less(zero(), negated(s)),
        !less(s, zero()) && !less(zero(), s) ==> s == zero() || s == negated(zero()),
        !not_a_number(one()) && finite(one()) && finite(zero()),
{
    assert(magnitude(s) < SIGN_BIT);
}

/// Of positive numbers the larger has the larger bit pattern.
pub proof fn positive_numbers_are_ordered_by_their_bits(a: Scalar, b: Scalar)
    requires
        a.bits < SIGN_BIT,
        b.bits < SIGN_BIT,
        !not_a_number(a),
        !not_a_number(b),
    ensures
        less(a, b) <==> a.bits < b.bits,
{
}

/// The smaller of two numbers is one of them and not above the other, and the
/// larger is one of them and not below the other. What is no number is passed
/// over.
pub proof fn smaller_and_larger_are_bounds(a: Scalar, b: Scalar)
    ensures
        smaller(a, b) == a || smaller(a, b) == b,
        larger(a, b) == a || larger(a, b) == b,
        !less(a, smaller(a, b)) && !less(b, smaller(a, b)),
        !less(larger(a, b), a) && !less(larger(a, b), b),
        not_a_number(a) ==> smaller(a, b) == b && larger(a, b) == b,
        not_a_number(b) ==> smaller(a, b) == a || not_a_number(a),
        not_a_number(b) ==> larger(a, b) == a || not_a_number(a),
{
}

/// A number within the bounds is not changed by bringing it between them, and
/// one outside becomes the bound that it passed.
pub proof fn clamping_changes_only_what_is_outside(s: Scalar, low: Scalar, high: Scalar)
    requires
        !less(high, low),
    ensures
        !less(s, low) && !less(high, s) ==> clamped(s, low, high) == s,
        less(s, low) ==> clamped(s, low, high) == low,
        less(high, s) && !less(s, low) ==> clamped(s, low, high) == high,
{
}

/// Only one and the number right below it are about one.
pub proof fn about_one_is_close_to_one(s: Scalar)
    ensures
        about_one(one()),
        about_one(s) ==> !less(one(), s) && s.bits + 1 >= one().bits,
        about_one(s) <==> s == one() || s.bits + 1 == one().bits,
{
}

/// Infinity is a number, though no finite one, and lies above every finite
/// number.
pub proof fn infinity_lies_above(s: Scalar)
    requires
        finite(s),
    ensures
        !not_a_number(scalar(INFINITY_BITS)),
        !finite(scalar(INFINITY_BITS)),
        !not_a_number(s),
        less(s, scalar(INFINITY_BITS)),
        less(negated(scalar(INFINITY_BITS)), s),
{
    assert(magnitude(s) >= 0);
}

} // verus!
