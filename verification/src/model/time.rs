//! Time and rational arithmetic.
//!
//! [`Rational`] holds `num / den` seconds as a pair of `u32`. Time arithmetic
//! works through these integer pairs, so long timelines do not accumulate
//! drift.

use vstd::arithmetic::div_mod::lemma_fundamental_div_mod_converse;
use vstd::arithmetic::mul::{lemma_mul_is_commutative, lemma_mul_upper_bound};
use vstd::prelude::*;

verus! {

/// `num / den` seconds.
#[derive(Clone, Copy, Debug, PartialEq, Eq, Structural, Hash)]
pub struct Rational {
    pub num: u32,
    pub den: u32,
}

/// Frames per second as `num / den`.
#[derive(Clone, Copy, Debug, PartialEq, Eq, Structural, Hash)]
pub struct Framerate(pub Rational);

/// Frame index relative to the start of a composition's timeline.
#[derive(Clone, Copy, Debug, PartialEq, Eq, Structural, PartialOrd, Ord, Hash)]
pub struct Frame(pub u32);

/// The value that the low 32 bits of `x` make.
pub open spec fn wrap32(x: int) -> int {
    x % 0x1_0000_0000
}

/// The frame index of time `t` at `framerate`, rounded down and reduced to its
/// low 32 bits.
pub open spec fn frame_of(t: Rational, framerate: Framerate) -> int {
    wrap32((t.num * framerate.0.num) / (t.den * framerate.0.den))
}

/// Whether `a` comes before `b` on the timeline: `a.num / a.den < b.num / b.den`,
/// compared by cross multiplication.
pub open spec fn before(a: Rational, b: Rational) -> bool {
    a.num * b.den < b.num * a.den
}

/// Whether `a` and `b` are less than a nanosecond apart.
pub open spec fn same_instant(a: Rational, b: Rational) -> bool {
    let d = a.num * b.den - b.num * a.den;
    1_000_000_000 * (if d < 0 {
        -d
    } else {
        d
    }) < a.den * b.den
}

proof fn product_bound(a: u32, b: u32)
    ensures
        0 <= a * b <= 0xffff_ffff * 0xffff_ffff,
        a * b == b * a,
{
    lemma_mul_upper_bound(a as int, 0xffff_ffff, b as int, 0xffff_ffff);
    assert(0 <= a * b) by (nonlinear_arith)
        requires
            a >= 0,
            b >= 0,
    ;
    lemma_mul_is_commutative(a as int, b as int);
}

impl Rational {
    pub fn new(num: u32, den: u32) -> (r: Self)
        ensures
            r == (Rational { num, den }),
    {
        Rational { num, den }
    }

    /// Converts this time to a frame index at `framerate`. Sub-frame
    /// remainders are dropped; an index that needs more than 32 bits keeps its
    /// low 32 bits.
    pub fn to_frame(self, framerate: Framerate) -> (r: Frame)
        requires
            self.den != 0,
            framerate.0.den != 0,
        ensures
            r.0 == frame_of(self, framerate),
    {
        proof {
            product_bound(self.num, framerate.0.num);
            product_bound(self.den, framerate.0.den);
            assert(self.den * framerate.0.den > 0) by (nonlinear_arith)
                requires
                    self.den > 0,
                    framerate.0.den > 0,
            ;
        }
        let n: u64 = (self.num as u64) * (framerate.0.num as u64);
        let d: u64 = (self.den as u64) * (framerate.0.den as u64);
        let q: u64 = n / d;
        Frame(low_bits(q))
    }

    /// Whether this time comes before `other`.
    pub fn is_before(self, other: Rational) -> (r: bool)
        ensures
            r == before(self, other),
    {
        proof {
            product_bound(self.num, other.den);
            product_bound(other.num, self.den);
        }
        (self.num as u64) * (other.den as u64) < (other.num as u64) * (self.den as u64)
    }

    /// Whether this time and `other` are less than a nanosecond apart.
    pub fn is_same_instant(self, other: Rational) -> (r: bool)
        ensures
            r == same_instant(self, other),
    {
        proof {
            product_bound(self.num, other.den);
            product_bound(other.num, self.den);
            product_bound(self.den, other.den);
        }
        let a: u64 = (self.num as u64) * (other.den as u64);
        let b: u64 = (other.num as u64) * (self.den as u64);
        let gap: u128 = if a < b {
            (b - a) as u128
        } else {
            (a - b) as u128
        };
        1_000_000_000u128 * gap < ((self.den as u64) * (other.den as u64)) as u128
    }
}

/// The low 32 bits of `q`.
pub fn low_bits(q: u64) -> (r: u32)
    ensures
        r == wrap32(q as int),
{
    (q % 0x1_0000_0000) as u32
}

impl Framerate {
    pub fn new(num: u32, den: u32) -> (r: Self)
        ensures
            r == Framerate(Rational { num, den }),
    {
        Framerate(Rational::new(num, den))
    }

    /// 24 frames per second.
    pub fn fps_24() -> (r: Self)
        ensures
            r == Framerate(Rational { num: 24, den: 1 }),
    {
        Framerate::new(24, 1)
    }

    /// 30 frames per second.
    pub fn fps_30() -> (r: Self)
        ensures
            r == default_framerate(),
    {
        Framerate::new(30, 1)
    }

    /// 60 frames per second.
    pub fn fps_60() -> (r: Self)
        ensures
            r == Framerate(Rational { num: 60, den: 1 }),
    {
        Framerate::new(60, 1)
    }
}

/// The framerate of a new composition: 30 frames per second.
pub open spec fn default_framerate() -> Framerate {
    Framerate(Rational { num: 30, den: 1 })
}

impl Default for Framerate {
    fn default() -> (r: Self)
        ensures
            r == default_framerate(),
    {
        Framerate::fps_30()
    }
}

impl Default for Frame {
    fn default() -> (r: Self)
        ensures
            r == Frame(0),
    {
        Frame(0)
    }
}

/// The time of `frame` at `framerate`: `frame * den / num` seconds, with the
/// numerator reduced to its low 32 bits.
pub open spec fn time_of(frame: Frame, framerate: Framerate) -> Rational {
    Rational {
        num: wrap32(frame.0 * framerate.0.den) as u32,
        den: framerate.0.num,
    }
}

impl Frame {
    /// Converts a frame index at `framerate` to an exact time on the timebase.
    pub fn to_time(self, framerate: Framerate) -> (r: Rational)
        ensures
            r == time_of(self, framerate),
            self.0 * framerate.0.den <= u32::MAX ==> r.num == self.0 * framerate.0.den,
    {
        proof {
            product_bound(self.0, framerate.0.den);
        }
        let num: u64 = (self.0 as u64) * (framerate.0.den as u64);
        Rational { num: low_bits(num), den: framerate.0.num }
    }
}

/// A frame converted to a time and back at the same framerate is the same
/// frame, as long as the exact numerator of the time fits in 32 bits.
pub proof fn frame_time_round_trip(frame: Frame, framerate: Framerate)
    requires
        framerate.0.num != 0,
        framerate.0.den != 0,
        frame.0 * framerate.0.den <= u32::MAX,
    ensures
        frame_of(time_of(frame, framerate), framerate) == frame.0,
{
    let t = time_of(frame, framerate);
    let f = frame.0 as int;
    let n = framerate.0.num as int;
    let d = framerate.0.den as int;
    assert(0 <= f * d) by (nonlinear_arith)
        requires
            f >= 0,
            d >= 0,
    ;
    assert(t.num == f * d);
    assert((f * d) * n == f * (n * d)) by (nonlinear_arith);
    assert(n * d > 0) by (nonlinear_arith)
        requires
            n > 0,
            d > 0,
    ;
    lemma_fundamental_div_mod_converse(f * (n * d), n * d, f, 0);
}

/// Frame zero is time zero at every framerate.
pub proof fn frame_zero_is_time_zero(framerate: Framerate)
    ensures
        time_of(Frame(0), framerate).num == 0,
{
}

/// No time comes before itself, and of two times at most one comes before the
/// other.
pub proof fn before_is_asymmetric(a: Rational, b: Rational)
    ensures
        !before(a, a),
        !(before(a, b) && before(b, a)),
{
}

/// On times with a non-zero denominator, not coming before is transitive: the
/// order of times is total.
pub proof fn not_before_transitive(a: Rational, b: Rational, c: Rational)
    requires
        a.den != 0,
        b.den != 0,
        c.den != 0,
        !before(b, a),
        !before(c, b),
    ensures
        !before(c, a),
{
    let (an, ad) = (a.num as int, a.den as int);
    let (bn, bd) = (b.num as int, b.den as int);
    let (cn, cd) = (c.num as int, c.den as int);
    assert(an * bd <= bn * ad);
    assert(bn * cd <= cn * bd);
    assert(an * cd <= cn * ad) by (nonlinear_arith)
        requires
            an * bd <= bn * ad,
            bn * cd <= cn * bd,
            ad > 0,
            bd > 0,
            cd > 0,
            an >= 0,
            bn >= 0,
            cn >= 0,
    {
        assert((an * bd) * cd <= (bn * ad) * cd);
        assert((bn * cd) * ad <= (cn * bd) * ad);
        assert((an * cd) * bd == (an * bd) * cd);
        assert((bn * ad) * cd == (bn * cd) * ad);
        assert((cn * bd) * ad == (cn * ad) * bd);
        assert((an * cd) * bd <= (cn * ad) * bd);
    }
}

/// A time lies in the frame that it is converted to: not before that frame
/// begins, and before the next one does.
pub proof fn time_lies_in_its_frame(t: Rational, framerate: Framerate)
    requires
        t.den > 0,
        framerate.0.num > 0,
        framerate.0.den > 0,
        (t.num * framerate.0.num) / (t.den * framerate.0.den) + 1 <= u32::MAX,
        ((t.num * framerate.0.num) / (t.den * framerate.0.den) + 1) * framerate.0.den <= u32::MAX,
    ensures
        !before(t, time_of(Frame(frame_of(t, framerate) as u32), framerate)),
        before(t, time_of(Frame((frame_of(t, framerate) + 1) as u32), framerate)),
{
    let (tn, td) = (t.num as int, t.den as int);
    let (n, d) = (framerate.0.num as int, framerate.0.den as int);
    let whole = td * d;
    assert(whole > 0) by (nonlinear_arith)
        requires
            td > 0,
            d > 0,
            whole == td * d,
    ;
    let f = (tn * n) / whole;
    vstd::arithmetic::div_mod::lemma_fundamental_div_mod(tn * n, whole);
    vstd::arithmetic::div_mod::lemma_mod_pos_bound(tn * n, whole);
    assert(tn * n >= 0) by (nonlinear_arith)
        requires
            tn >= 0,
            n >= 0,
    ;
    assert(f >= 0) by (nonlinear_arith)
        requires
            f == (tn * n) / whole,
            tn * n >= 0,
            whole > 0,
    ;
    assert(whole * f == (f * d) * td && whole * (f + 1) == ((f + 1) * d) * td) by (nonlinear_arith)
        requires
            whole == td * d,
    ;
    assert(whole * (f + 1) == whole * f + whole) by (nonlinear_arith);
    assert(f * d <= (f + 1) * d && 0 <= f * d) by (nonlinear_arith)
        requires
            f >= 0,
            d > 0,
    ;
    assert(tn * n == n * tn) by (nonlinear_arith);
}

/// Being at the same instant does not depend on the order of the two times,
/// and every proper time is at its own instant.
pub proof fn same_instant_is_symmetric(a: Rational, b: Rational)
    requires
        a.den > 0,
    ensures
        same_instant(a, a),
        same_instant(a, b) == same_instant(b, a),
{
    assert(a.den * b.den == b.den * a.den) by (nonlinear_arith);
    assert(a.den * a.den > 0) by (nonlinear_arith)
        requires
            a.den > 0,
    ;
}

/// Two times of which one comes before the other are at the same instant only
/// if their denominators are large: on any usual time base different ticks
/// stay apart.
pub proof fn ticks_stay_apart(a: Rational, b: Rational)
    requires
        before(a, b),
        a.den * b.den <= 1_000_000_000,
    ensures
        !same_instant(a, b),
        !same_instant(b, a),
{
    assert(a.den * b.den == b.den * a.den) by (nonlinear_arith);
}

/// Times that are less than a billionth of a second apart are at the same
/// instant, and times that are further apart are not.
pub proof fn same_instant_within_a_billionth(num: u32, k: u32)
    requires
        num < u32::MAX,
        k > 0,
    ensures
        same_instant(Rational { num, den: k }, Rational { num: (num + 1) as u32, den: k }) <==> k
            > 1_000_000_000,
{
    let (n, d) = (num as int, k as int);
    assert((n + 1) * d - n * d == d) by (nonlinear_arith);
    if d > 1_000_000_000 {
        assert(1_000_000_000 * d < d * d) by (nonlinear_arith)
            requires
                d > 1_000_000_000,
        ;
    } else {
        assert(1_000_000_000 * d >= d * d) by (nonlinear_arith)
            requires
                0 < d <= 1_000_000_000,
        ;
    }
}

} // verus!
