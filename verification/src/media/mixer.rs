//! Audio mixing plans: which samples of a source go into which frame of the
//! stereo master bus. Sources are read at the master rate between their two
//! nearest frames. Positions are exact fractions, like all times, so that they
//! do not drift over a long window.

use crate::model::curve::Curve;
use crate::model::time::Rational;
use crate::scalar::{clamped, larger, less, one, order_key, scalar, zero, Scalar};
use vstd::prelude::*;

verus! {

pub const DEFAULT_MASTER_RATE: u32 = 48_000;

/// Audio source that feeds the mixer, with keyframed gain (linear) and pan
/// (-1 is full left, 0 centre, +1 full right).
#[derive(Debug, PartialEq)]
pub struct AudioSource {
    pub sample_rate: u32,
    pub channels: u32,
    /// Interleaved samples: frames times channels.
    pub pcm: Vec<Scalar>,
    pub gain: Curve<Scalar>,
    pub pan: Curve<Scalar>,
}

/// Master bus output: interleaved stereo at `sample_rate`.
#[derive(Debug, PartialEq)]
pub struct MixedBus {
    pub sample_rate: u32,
    pub pcm: Vec<Scalar>,
}

impl MixedBus {
    pub fn frames(&self) -> (r: usize)
        ensures
            r == self.pcm@.len() / 2,
    {
        self.pcm.len() / 2
    }
}

/// How many whole frames `samples` interleaved samples hold.
pub open spec fn source_frames(samples: int, channels: int) -> int {
    if channels == 0 {
        0
    } else {
        samples / channels
    }
}

impl AudioSource {
    /// How many whole frames the source holds.
    pub fn frames(&self) -> (r: usize)
        ensures
            r == source_frames(self.pcm@.len() as int, self.channels as int),
    {
        if self.channels == 0 {
            0
        } else {
            self.pcm.len() / (self.channels as usize)
        }
    }
}

/// Where one frame of the bus reads its source: between frame `i0` and frame
/// `i1`, `rest / whole` of the way. Where `whole` is 0 there is no telling how
/// far, and what is read there is not a number.
#[derive(Clone, Copy, Debug, PartialEq, Eq, Structural)]
pub struct Tap {
    pub i0: usize,
    pub i1: usize,
    pub rest: u128,
    pub whole: u128,
}

/// The denominator of source positions.
pub open spec fn tap_whole(time_start: Rational, master_rate: u32) -> int {
    time_start.den * master_rate
}

/// The numerator of the source position that frame `i` of a window reads: the
/// source frames up to `time_start`, and those of `i` frames of the bus.
pub open spec fn tap_position(
    time_start: Rational,
    source_rate: u32,
    master_rate: u32,
    i: int,
) -> int {
    time_start.num * source_rate * master_rate + i * source_rate * time_start.den
}

/// The frame after frame `i` of a source, or its last one.
pub open spec fn next_frame(i: int, frames: int) -> int {
    if i + 1 < frames {
        i + 1
    } else if frames > 0 {
        frames - 1
    } else {
        0
    }
}

/// Whether the position that frame `i` of a window reads is neither finite nor
/// beyond every source: a time of `0 / 0`, or a source without a rate or the
/// first frame where a denominator is 0.
pub open spec fn no_position(
    time_start: Rational,
    source_rate: u32,
    master_rate: u32,
    i: int,
) -> bool {
    ||| time_start.den == 0 && (time_start.num == 0 || source_rate == 0)
    ||| master_rate == 0 && (source_rate == 0 || i == 0)
}

/// Where frame `i` of a window that begins at `time_start` reads a source of
/// `frames` frames. Past the end of the source there is nothing to read; at
/// its last frame the position does not go beyond it. With a denominator of 0
/// the position is past every end, or there is none and the first frames are
/// read.
pub open spec fn tap_at(
    time_start: Rational,
    source_rate: u32,
    master_rate: u32,
    frames: int,
    i: int,
) -> Option<Tap> {
    let whole = tap_whole(time_start, master_rate);
    let position = tap_position(time_start, source_rate, master_rate, i);
    let i0 = position / whole;
    if time_start.den == 0 || master_rate == 0 {
        if no_position(time_start, source_rate, master_rate, i) {
            Some(Tap { i0: 0, i1: next_frame(0, frames) as usize, rest: 0, whole: 0 })
        } else {
            None
        }
    } else if i0 >= frames {
        None
    } else {
        Some(
            Tap {
                i0: i0 as usize,
                i1: next_frame(i0, frames) as usize,
                rest: (position % whole) as u128,
                whole: whole as u128,
            },
        )
    }
}

/// Where frame `i` of a window that begins at `time_start` reads a source of
/// `frames` frames.
pub fn tap_of(
    time_start: Rational,
    source_rate: u32,
    master_rate: u32,
    frames: usize,
    i: usize,
) -> (r: Option<Tap>)
    requires
        i < 0x1000_0000_0000_0000,
    ensures
        r == tap_at(time_start, source_rate, master_rate, frames as int, i as int),
{
    if time_start.den == 0 || master_rate == 0 {
        let open = (time_start.den == 0 && (time_start.num == 0 || source_rate == 0)) || (
        master_rate == 0 && (source_rate == 0 || i == 0));
        return if open {
            Some(
                Tap {
                    i0: 0,
                    i1: if frames > 1 {
                        1
                    } else {
                        0
                    },
                    rest: 0,
                    whole: 0,
                },
            )
        } else {
            None
        };
    }
    proof {
        let n = time_start.num as int;
        let d = time_start.den as int;
        let s = source_rate as int;
        let m = master_rate as int;
        let k = i as int;
        assert(0 <= n * s <= 0xffff_ffff * 0xffff_ffff) by (nonlinear_arith)
            requires
                0 <= n <= 0xffff_ffff,
                0 <= s <= 0xffff_ffff,
        ;
        assert(0 <= n * s * m <= 0xffff_ffff * 0xffff_ffff * 0xffff_ffff) by (nonlinear_arith)
            requires
                0 <= n * s <= 0xffff_ffff * 0xffff_ffff,
                0 <= m <= 0xffff_ffff,
        ;
        assert(0 <= k * s <= 0x1000_0000_0000_0000 * 0xffff_ffff) by (nonlinear_arith)
            requires
                0 <= k <= 0x1000_0000_0000_0000,
                0 <= s <= 0xffff_ffff,
        ;
        assert(0 <= k * s * d <= 0x1000_0000_0000_0000 * 0xffff_ffff * 0xffff_ffff)
            by (nonlinear_arith)
            requires
                0 <= k * s <= 0x1000_0000_0000_0000 * 0xffff_ffff,
                0 <= d <= 0xffff_ffff,
        ;
        assert(0 < d * m <= 0xffff_ffff * 0xffff_ffff) by (nonlinear_arith)
            requires
                0 < d <= 0xffff_ffff,
                0 < m <= 0xffff_ffff,
        ;
    }
    let whole: u128 = (time_start.den as u128) * (master_rate as u128);
    let position: u128 = (time_start.num as u128) * (source_rate as u128) * (master_rate as u128)
        + (i as u128) * (source_rate as u128) * (time_start.den as u128);
    let at: u128 = position / whole;
    if at >= frames as u128 {
        None
    } else {
        let i0: usize = at as usize;
        let i1: usize = if i0 + 1 < frames {
            i0 + 1
        } else {
            frames - 1
        };
        Some(Tap { i0, i1, rest: position % whole, whole })
    }
}

/// A source at the master rate is read frame by frame from the beginning,
/// without blending.
pub proof fn master_rate_reads_straight(den: u32, rate: u32, frames: int, i: int)
    requires
        den > 0,
        rate > 0,
        0 <= i < frames <= usize::MAX,
    ensures
        tap_at(Rational { num: 0, den }, rate, rate, frames, i) matches Some(t) && t.i0 == i
            && t.rest == 0,
{
    let whole = den * rate;
    let position = 0 * rate * rate + i * rate * den;
    assert(position == i * whole + 0) by (nonlinear_arith)
        requires
            position == 0 * rate * rate + i * rate * den,
            whole == den * rate,
    ;
    assert(whole > 0) by (nonlinear_arith)
        requires
            whole == den * rate,
            den > 0,
            rate > 0,
    ;
    assert(whole <= 0xffff_ffff * 0xffff_ffff) by (nonlinear_arith)
        requires
            whole == den * rate,
            0 <= den <= 0xffff_ffff,
            0 <= rate <= 0xffff_ffff,
    ;
    vstd::arithmetic::div_mod::lemma_fundamental_div_mod_converse(position, whole, i, 0);
}

/// Where every frame of a window of `window` frames that begins at
/// `time_start` reads `source`.
pub fn window_taps(
    source: &AudioSource,
    time_start: Rational,
    master_rate: u32,
    window: usize,
) -> (r: Vec<Option<Tap>>)
    requires
        window < 0x1000_0000_0000_0000,
    ensures
        r@ == Seq::new(
            window as nat,
            |i: int|
                tap_at(
                    time_start,
                    source.sample_rate,
                    master_rate,
                    source_frames(source.pcm@.len() as int, source.channels as int),
                    i,
                ),
        ),
{
    let frames: usize = source.frames();
    let mut taps: Vec<Option<Tap>> = Vec::new();
    let mut i: usize = 0;
    while i < window
        invariant
            i <= window < 0x1000_0000_0000_0000,
            taps.len() == i,
            forall|k: int|
                0 <= k < i ==> #[trigger] taps@[k] == tap_at(
                    time_start,
                    source.sample_rate,
                    master_rate,
                    frames as int,
                    k,
                ),
        decreases window - i,
    {
        taps.push(tap_of(time_start, source.sample_rate, master_rate, frames, i));
        i = i + 1;
    }
    taps
}

/// A source that has ended stays silent for the rest of a window.
pub proof fn ended_source_stays_silent(
    time_start: Rational,
    source_rate: u32,
    master_rate: u32,
    frames: int,
    i: int,
    j: int,
)
    requires
        0 <= i <= j,
        tap_at(time_start, source_rate, master_rate, frames, i) is None,
    ensures
        tap_at(time_start, source_rate, master_rate, frames, j) is None,
{
    let whole = tap_whole(time_start, master_rate);
    let a = tap_position(time_start, source_rate, master_rate, i);
    let b = tap_position(time_start, source_rate, master_rate, j);
    if time_start.den > 0 && master_rate > 0 {
        assert(whole > 0) by (nonlinear_arith)
            requires
                whole == time_start.den * master_rate,
                time_start.den > 0,
                master_rate > 0,
        ;
        assert(i * source_rate * time_start.den <= j * source_rate * time_start.den)
            by (nonlinear_arith)
            requires
                i <= j,
                source_rate >= 0,
                time_start.den >= 0,
        ;
        vstd::arithmetic::div_mod::lemma_div_is_ordered(a, b, whole);
    }
}

/// Bit pattern of `-1.0`.
pub const MINUS_ONE_BITS: u32 = 0xbf80_0000;

/// The gain and the pan with which a source of `samples` samples is heard: a
/// gain below zero counts as zero, a pan beyond either side as that side.
/// Without gain or samples it is not heard.
pub open spec fn levels(gain: Scalar, pan: Scalar, samples: int) -> Option<(Scalar, Scalar)> {
    let g = larger(gain, zero());
    if order_key(g) == 0 || samples == 0 {
        None
    } else {
        Some((g, clamped(pan, scalar(MINUS_ONE_BITS), one())))
    }
}

impl AudioSource {
    /// The gain and the pan with which this source is heard where its curves
    /// give `gain` and `pan`; `None` if it is not heard.
    pub fn levels_at(&self, gain: Scalar, pan: Scalar) -> (r: Option<(Scalar, Scalar)>)
        ensures
            r == levels(gain, pan, self.pcm@.len() as int),
    {
        let g = gain.max_with(Scalar::zero());
        let side = pan.clamp_to(Scalar::from_bits(MINUS_ONE_BITS), Scalar::one());
        if self.pcm.len() > 0 && Scalar::zero().is_less(g) {
            Some((g, side))
        } else {
            None
        }
    }
}

/// A source that is heard has a gain above zero.
pub proof fn heard_sources_have_gain(gain: Scalar, pan: Scalar, samples: int)
    ensures
        levels(gain, pan, samples) matches Some(l) ==> less(zero(), l.0),
{
}

/// The positions of the samples whose average is the left side of a frame: a
/// single channel, or the even ones.
pub open spec fn left_samples(channels: int, base: int) -> Seq<int> {
    if channels == 1 {
        seq![base]
    } else {
        Seq::new(((channels + 1) / 2) as nat, |k: int| base + 2 * k)
    }
}

/// The positions of the samples whose average is the right side of a frame: a
/// single channel, or the odd ones.
pub open spec fn right_samples(channels: int, base: int) -> Seq<int> {
    if channels == 1 {
        seq![base]
    } else {
        Seq::new((channels / 2) as nat, |k: int| base + 2 * k + 1)
    }
}

/// The positions of the samples that make the two sides of frame `frame`.
pub fn stereo_samples(channels: u32, frame: usize) -> (r: (Vec<usize>, Vec<usize>))
    requires
        (frame + 1) * channels <= usize::MAX,
    ensures
        r.0@.map_values(|x: usize| x as int) == left_samples(
            channels as int,
            frame * channels,
        ),
        r.1@.map_values(|x: usize| x as int) == right_samples(
            channels as int,
            frame * channels,
        ),
{
    proof {
        assert((frame + 1) * channels == frame * channels + channels) by (nonlinear_arith);
        assert(0 <= frame * channels) by (nonlinear_arith)
            requires
                frame >= 0,
                channels >= 0,
        ;
    }
    let ch: usize = channels as usize;
    let base: usize = frame * ch;
    let mut left: Vec<usize> = Vec::new();
    let mut right: Vec<usize> = Vec::new();
    if ch == 1 {
        left.push(base);
        right.push(base);
    } else {
        let mut c: usize = 0;
        while c < ch
            invariant
                c <= ch,
                ch == channels,
                base == frame * channels,
                base + ch <= usize::MAX,
                left.len() == (c + 1) / 2,
                right.len() == c / 2,
                forall|k: int| 0 <= k < left.len() ==> #[trigger] left@[k] == base + 2 * k,
                forall|k: int| 0 <= k < right.len() ==> #[trigger] right@[k] == base + 2 * k + 1,
            decreases ch - c,
        {
            if c % 2 == 0 {
                left.push(base + c);
            } else {
                right.push(base + c);
            }
            c = c + 1;
        }
    }
    assert(left@.map_values(|x: usize| x as int) =~= left_samples(
        channels as int,
        frame * channels,
    ));
    assert(right@.map_values(|x: usize| x as int) =~= right_samples(
        channels as int,
        frame * channels,
    ));
    (left, right)
}

/// Where a tap reads: as many source frames into the source as pass, at the
/// source's rate, from the start of the timeline to the start of the window
/// and from there to frame `i` of the bus. There is a tap exactly where that is
/// before the end of the source.
pub proof fn tap_is_where_the_time_is(
    time_start: Rational,
    source_rate: u32,
    master_rate: u32,
    frames: int,
    i: int,
)
    requires
        time_start.den > 0,
        master_rate > 0,
        0 <= frames <= usize::MAX,
        i >= 0,
    ensures
        ({
            let whole = time_start.den * master_rate;
            let at = source_rate * (time_start.num * master_rate + i * time_start.den);
            match tap_at(time_start, source_rate, master_rate, frames, i) {
                Some(t) => {
                    &&& t.whole == whole
                    &&& t.i0 * whole + t.rest == at
                    &&& 0 <= t.rest < whole
                    &&& t.i0 < frames
                    &&& t.i1 == t.i0 + 1 || (t.i1 == t.i0 && t.i0 + 1 == frames)
                    &&& t.i1 < frames
                },
                None => at >= frames * whole,
            }
        }),
{
    let n = time_start.num as int;
    let d = time_start.den as int;
    let s = source_rate as int;
    let m = master_rate as int;
    let whole = d * m;
    let position = tap_position(time_start, source_rate, master_rate, i);
    assert(s * (n * m + i * d) == n * s * m + i * s * d) by (nonlinear_arith);
    assert(0 < whole <= 0xffff_ffff * 0xffff_ffff) by (nonlinear_arith)
        requires
            whole == d * m,
            0 < d <= 0xffff_ffff,
            0 < m <= 0xffff_ffff,
    ;
    assert(position >= 0) by (nonlinear_arith)
        requires
            position == n * s * m + i * s * d,
            n >= 0,
            s >= 0,
            m >= 0,
            i >= 0,
            d >= 0,
    ;
    vstd::arithmetic::div_mod::lemma_fundamental_div_mod(position, whole);
    vstd::arithmetic::div_mod::lemma_mod_bound(position, whole);
    let q = position / whole;
    let r = position % whole;
    assert(whole * q == q * whole) by (nonlinear_arith);
    assert(q >= 0) by (nonlinear_arith)
        requires
            position == whole * q + r,
            position >= 0,
            0 <= r < whole,
    ;
    if q >= frames {
        assert(position >= frames * whole) by (nonlinear_arith)
            requires
                position == whole * q + r,
                r >= 0,
                q >= frames,
                whole > 0,
        ;
    }
}

/// Moving the start of a window by frames of the bus is reading that many
/// frames of the bus further on.
pub proof fn moved_window_reads_on(
    a: u32,
    k: u32,
    source_rate: u32,
    master_rate: u32,
    frames: int,
    i: int,
)
    requires
        master_rate > 0,
        a + k <= u32::MAX,
        i >= 0,
    ensures
        tap_at(
            Rational { num: (a + k) as u32, den: master_rate },
            source_rate,
            master_rate,
            frames,
            i,
        ) == tap_at(
            Rational { num: a, den: master_rate },
            source_rate,
            master_rate,
            frames,
            i + k,
        ),
{
    let s = source_rate as int;
    let m = master_rate as int;
    assert((a + k) * s * m + i * s * m == a * s * m + (i + k) * s * m) by (nonlinear_arith);
}

/// At the master rate, frame `i` of a window that begins `n` frames into the
/// timeline reads frame `n + i` of the source as it is, until the source ends.
pub proof fn master_rate_reads_from_the_start(n: u32, rate: u32, frames: int, i: int)
    requires
        rate > 0,
        0 <= frames <= usize::MAX,
        i >= 0,
    ensures
        match tap_at(Rational { num: n, den: rate }, rate, rate, frames, i) {
            Some(t) => n + i < frames && t.i0 == n + i && t.rest == 0 && t.whole > 0,
            None => n + i >= frames,
        },
{
    let m = rate as int;
    tap_is_where_the_time_is(Rational { num: n, den: rate }, rate, rate, frames, i);
    let whole = m * m;
    assert(whole > 0) by (nonlinear_arith)
        requires
            whole == m * m,
            m > 0,
    ;
    assert(m * (n * m + i * m) == (n + i) * whole) by (nonlinear_arith)
        requires
            whole == m * m,
    ;
    match tap_at(Rational { num: n, den: rate }, rate, rate, frames, i) {
        Some(t) => {
            let q = t.i0 as int;
            let r = t.rest as int;
            vstd::arithmetic::div_mod::lemma_fundamental_div_mod_converse(
                (n + i) * whole,
                whole,
                n + i,
                0,
            );
            assert(q * whole == whole * q) by (nonlinear_arith);
            vstd::arithmetic::div_mod::lemma_fundamental_div_mod_converse(
                (n + i) * whole,
                whole,
                q,
                r,
            );
        },
        None => {
            assert(n + i >= frames) by (nonlinear_arith)
                requires
                    (n + i) * whole >= frames * whole,
                    whole > 0,
            ;
        },
    }
}

/// Equal times read the same place, however they are written.
pub proof fn equal_times_read_alike(
    a: Rational,
    b: Rational,
    source_rate: u32,
    master_rate: u32,
    frames: int,
    i: int,
)
    requires
        a.den > 0,
        b.den > 0,
        a.num * b.den == b.num * a.den,
        master_rate > 0,
        0 <= frames <= usize::MAX,
        i >= 0,
    ensures
        ({
            let s = tap_at(a, source_rate, master_rate, frames, i);
            let t = tap_at(b, source_rate, master_rate, frames, i);
            &&& s is Some <==> t is Some
            &&& s is Some ==> s->0.i0 == t->0.i0 && s->0.i1 == t->0.i1 && s->0.rest * t->0.whole
                == t->0.rest * s->0.whole
        }),
{
    tap_is_where_the_time_is(a, source_rate, master_rate, frames, i);
    tap_is_where_the_time_is(b, source_rate, master_rate, frames, i);
    let m = master_rate as int;
    let r = source_rate as int;
    let wa = a.den * m;
    let wb = b.den * m;
    let pa = r * (a.num * m + i * a.den);
    let pb = r * (b.num * m + i * b.den);
    assert(wa > 0 && wb > 0) by (nonlinear_arith)
        requires
            wa == a.den * m,
            wb == b.den * m,
            a.den > 0,
            b.den > 0,
            m > 0,
    ;
    let u = a.num * m + i * a.den;
    let v = b.num * m + i * b.den;
    assert(u * b.den == v * a.den) by (nonlinear_arith)
        requires
            u == a.num * m + i * a.den,
            v == b.num * m + i * b.den,
            a.num * b.den == b.num * a.den,
    ;
    assert(pa * wb == (u * b.den) * (r * m)) by (nonlinear_arith)
        requires
            pa == r * u,
            wb == b.den * m,
    ;
    assert(pb * wa == (v * a.den) * (r * m)) by (nonlinear_arith)
        requires
            pb == r * v,
            wa == a.den * m,
    ;
    same_quotient(pa, wa, pb, wb, frames);
    if let Some(s) = tap_at(a, source_rate, master_rate, frames, i) {
        before_the_end(s.i0 as int, s.rest as int, wa, frames);
    }
    if let Some(t) = tap_at(b, source_rate, master_rate, frames, i) {
        before_the_end(t.i0 as int, t.rest as int, wb, frames);
    }
    if let Some(s) = tap_at(a, source_rate, master_rate, frames, i) {
        if let Some(t) = tap_at(b, source_rate, master_rate, frames, i) {
            quotients_agree(pa, wa, s.i0 as int, s.rest as int, pb, wb, t.i0 as int, t.rest as int);
        }
    }
}

proof fn before_the_end(q: int, r: int, w: int, frames: int)
    requires
        0 <= r < w,
        q < frames,
    ensures
        q * w + r < frames * w,
{
    assert(q * w + r < frames * w) by (nonlinear_arith)
        requires
            0 <= r < w,
            q + 1 <= frames,
    ;
}

proof fn same_quotient(pa: int, wa: int, pb: int, wb: int, frames: int)
    requires
        wa > 0,
        wb > 0,
        pa * wb == pb * wa,
    ensures
        pa >= frames * wa <==> pb >= frames * wb,
{
    assert(pa >= frames * wa ==> pb >= frames * wb) by (nonlinear_arith)
        requires
            wa > 0,
            wb > 0,
            pa * wb == pb * wa,
    ;
    assert(pb >= frames * wb ==> pa >= frames * wa) by (nonlinear_arith)
        requires
            wa > 0,
            wb > 0,
            pa * wb == pb * wa,
    ;
}

proof fn quotients_agree(
    pa: int,
    wa: int,
    qa: int,
    ra: int,
    pb: int,
    wb: int,
    qb: int,
    rb: int,
)
    requires
        0 <= ra < wa,
        0 <= rb < wb,
        qa * wa + ra == pa,
        qb * wb + rb == pb,
        pa * wb == pb * wa,
    ensures
        qa == qb,
        ra * wb == rb * wa,
{
    assert((qa - qb) * (wa * wb) == rb * wa - ra * wb) by (nonlinear_arith)
        requires
            qa * wa + ra == pa,
            qb * wb + rb == pb,
            pa * wb == pb * wa,
    ;
    let w = wa * wb;
    let d = qa - qb;
    let e = rb * wa - ra * wb;
    assert(-w < e < w && w > 0) by (nonlinear_arith)
        requires
            w == wa * wb,
            e == rb * wa - ra * wb,
            0 <= ra < wa,
            0 <= rb < wb,
    ;
    assert(d == 0) by (nonlinear_arith)
        requires
            d * w == e,
            -w < e < w,
            w > 0,
    ;
    assert(0 * w == 0);
}

/// Where one tap is found, so is every earlier one: a source is heard from its
/// beginning to its end without gaps.
pub proof fn source_is_heard_without_gaps(
    time_start: Rational,
    source_rate: u32,
    master_rate: u32,
    frames: int,
    i: int,
    j: int,
)
    requires
        time_start.den > 0,
        master_rate > 0,
        0 <= i <= j,
        tap_at(time_start, source_rate, master_rate, frames, j) is Some,
    ensures
        tap_at(time_start, source_rate, master_rate, frames, i) is Some,
{
    if tap_at(time_start, source_rate, master_rate, frames, i) is None {
        ended_source_stays_silent(time_start, source_rate, master_rate, frames, i, j);
    }
}

/// A source holds as many frames as its samples fill.
pub proof fn source_frames_fill(samples: int, channels: int)
    requires
        samples >= 0,
        channels >= 0,
    ensures
        channels > 0 ==> source_frames(samples, channels) * channels <= samples < (source_frames(
            samples,
            channels,
        ) + 1) * channels,
        channels == 0 ==> source_frames(samples, channels) == 0,
{
    if channels > 0 {
        let q = samples / channels;
        vstd::arithmetic::div_mod::lemma_fundamental_div_mod(samples, channels);
        vstd::arithmetic::div_mod::lemma_mod_bound(samples, channels);
        assert(q * channels == channels * q) by (nonlinear_arith);
        assert((q + 1) * channels == channels * q + channels) by (nonlinear_arith);
    }
}

/// Every channel of a frame goes to one side: the first, third, fifth to the
/// left and the second, fourth, sixth to the right. A single channel goes to
/// both.
pub proof fn channels_are_divided(channels: int, base: int, c: int)
    requires
        0 <= c < channels,
    ensures
        left_samples(channels, base).contains(base + c) <==> channels == 1 || c % 2 == 0,
        right_samples(channels, base).contains(base + c) <==> channels == 1 || c % 2 == 1,
        channels > 1 ==> left_samples(channels, base).len() + right_samples(channels, base).len()
            == channels,
        channels > 1 ==> left_samples(channels, base).no_duplicates(),
        channels > 1 ==> right_samples(channels, base).no_duplicates(),
{
    let l = left_samples(channels, base);
    let r = right_samples(channels, base);
    if channels == 1 {
        assert(l[0] == base && r[0] == base);
    } else {
        if c % 2 == 0 {
            assert(l[c / 2] == base + c);
        } else {
            assert(r[c / 2] == base + c);
        }
    }
}

/// A source with gain and samples is heard at that gain, and at its pan if
/// that is between full left and full right.
pub proof fn source_levels_are_kept(gain: Scalar, pan: Scalar, samples: int)
    requires
        samples > 0,
        less(zero(), gain),
        !less(pan, scalar(MINUS_ONE_BITS)),
        !less(one(), pan),
    ensures
        levels(gain, pan, samples) == Some((gain, pan)),
{
}

} // verus!
