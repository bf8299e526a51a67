//! A/V sync: pure timing arithmetic.
//!
//! The audio side counts the samples that it consumes. The video side reads
//! that count, converts it to a video frame, and snaps the playhead if it has
//! drifted more than [`SyncTolerance::tolerance_frames`].
//!
//! Samples and frames are converted in integers and rounded once, so that long
//! timelines do not accumulate drift.

use crate::model::time::{low_bits, wrap32, Framerate};
use vstd::prelude::*;

verus! {

/// Sample-clock counter.
#[derive(Clone, Copy, Debug, PartialEq, Eq, Structural)]
pub struct AudioClock {
    samples: i64,
    sample_rate: u32,
}

/// What a clock holds: the samples consumed since the playhead was last moved,
/// and their rate.
pub struct ClockModel {
    pub samples: i64,
    pub sample_rate: u32,
}

impl View for AudioClock {
    type V = ClockModel;

    closed spec fn view(&self) -> ClockModel {
        ClockModel { samples: self.samples, sample_rate: self.sample_rate }
    }
}

/// `n / d` rounded to the nearest integer, halves away from zero.
pub open spec fn rounded(n: int, d: int) -> int {
    if n >= 0 {
        (2 * n + d) / (2 * d)
    } else {
        -((2 * -n + d) / (2 * d))
    }
}

/// `x` brought into the range of 64-bit integers.
pub open spec fn clamped64(x: int) -> int {
    if x > i64::MAX {
        i64::MAX as int
    } else if x < i64::MIN {
        i64::MIN as int
    } else {
        x
    }
}

/// `x` reduced to 64 bits, as a signed number.
pub open spec fn wrap64(x: int) -> int {
    let low = x % 0x1_0000_0000_0000_0000;
    if low > i64::MAX {
        low - 0x1_0000_0000_0000_0000
    } else {
        low
    }
}

/// Samples from the start of the timeline to `frame`: frames divided by the
/// framerate, times the sample rate, to the nearest sample. A framerate of
/// zero puts every later frame out of reach; one without a value puts every
/// frame at the start.
pub open spec fn samples_at(frame: u32, framerate: Framerate, rate: u32) -> int {
    let num = framerate.0.num;
    let den = framerate.0.den;
    if den == 0 {
        0
    } else if num == 0 {
        if frame == 0 || rate == 0 {
            0
        } else {
            i64::MAX as int
        }
    } else {
        clamped64(rounded(frame * den * rate, num as int))
    }
}

/// The frame that `samples` at `rate` lead to: samples divided by the rate,
/// times the framerate, to the nearest frame.
pub open spec fn frame_of_samples(samples: i64, rate: u32, framerate: Framerate) -> int {
    let num = framerate.0.num;
    let den = framerate.0.den;
    let r = if rate == 0 {
        1
    } else {
        rate as int
    };
    if den == 0 {
        if num == 0 || samples == 0 {
            0
        } else if samples > 0 {
            i64::MAX as int
        } else {
            i64::MIN as int
        }
    } else {
        clamped64(rounded(samples * num, r * den))
    }
}

proof fn product3(a: u32, b: u32, c: u32)
    ensures
        0 <= a * b <= 0xffff_ffff * 0xffff_ffff,
        0 <= a * b * c <= 0xffff_ffff * 0xffff_ffff * 0xffff_ffff,
{
    assert(0 <= a * b <= 0xffff_ffff * 0xffff_ffff) by (nonlinear_arith)
        requires
            0 <= a <= 0xffff_ffff,
            0 <= b <= 0xffff_ffff,
    ;
    let ab = a * b;
    assert(0 <= ab * c <= 0xffff_ffff * 0xffff_ffff * 0xffff_ffff) by (nonlinear_arith)
        requires
            0 <= ab <= 0xffff_ffff * 0xffff_ffff,
            0 <= c <= 0xffff_ffff,
    ;
}

fn rounded_ratio(n: u128, d: u128) -> (r: u128)
    requires
        0 < d <= 0xffff_ffff_ffff_ffff,
        n <= 0xffff_ffff_ffff_ffff_ffff_ffff,
    ensures
        r == rounded(n as int, d as int),
{
    (2 * n + d) / (2 * d)
}

impl AudioClock {
    pub fn new(sample_rate: u32) -> (r: Self)
        ensures
            r@ == (ClockModel { samples: 0, sample_rate }),
    {
        AudioClock { samples: 0, sample_rate }
    }

    /// Counts `delta` more samples.
    pub fn add_samples(&mut self, delta: i64)
        ensures
            final(self)@.samples == wrap64(old(self)@.samples + delta),
            final(self)@.sample_rate == old(self)@.sample_rate,
    {
        self.samples = self.samples.wrapping_add(delta);
    }

    /// Moves the clock to `frame`.
    pub fn reset_to(&mut self, frame: u32, framerate: Framerate, sample_rate: u32)
        ensures
            final(self)@.sample_rate == sample_rate,
            final(self)@.samples == samples_at(frame, framerate, sample_rate),
    {
        let num: u32 = framerate.0.num;
        let den: u32 = framerate.0.den;
        self.sample_rate = sample_rate;
        self.samples = if den == 0 {
            0
        } else if num == 0 {
            if frame == 0 || sample_rate == 0 {
                0
            } else {
                i64::MAX
            }
        } else {
            proof {
                product3(frame, den, sample_rate);
            }
            let n: u128 = (frame as u128) * (den as u128) * (sample_rate as u128);
            let s: u128 = rounded_ratio(n, num as u128);
            if s > 0x7fff_ffff_ffff_ffff {
                i64::MAX
            } else {
                s as i64
            }
        };
    }

    pub fn samples(&self) -> (r: i64)
        ensures
            r == self@.samples,
    {
        self.samples
    }

    pub fn sample_rate(&self) -> (r: u32)
        ensures
            r == self@.sample_rate,
    {
        self.sample_rate
    }

    /// Frame that the audio clock has reached.
    pub fn frame_at(&self, framerate: Framerate) -> (r: i64)
        ensures
            r == frame_of_samples(self@.samples, self@.sample_rate, framerate),
    {
        let num: u32 = framerate.0.num;
        let den: u32 = framerate.0.den;
        let rate: u32 = if self.sample_rate == 0 {
            1
        } else {
            self.sample_rate
        };
        if den == 0 {
            return if num == 0 || self.samples == 0 {
                0
            } else if self.samples > 0 {
                i64::MAX
            } else {
                i64::MIN
            };
        }
        let size: u64 = if self.samples >= 0 {
            self.samples as u64
        } else if self.samples == i64::MIN {
            0x8000_0000_0000_0000
        } else {
            (-self.samples) as u64
        };
        proof {
            let a = size as int;
            assert(0 <= a * num <= 0x8000_0000_0000_0000 * 0xffff_ffff) by (nonlinear_arith)
                requires
                    0 <= a <= 0x8000_0000_0000_0000,
                    0 <= num <= 0xffff_ffff,
            ;
            assert(0 < rate * den <= 0xffff_ffff * 0xffff_ffff) by (nonlinear_arith)
                requires
                    0 < rate <= 0xffff_ffff,
                    0 < den <= 0xffff_ffff,
            ;
            let x = self.samples as int;
            if x < 0 {
                assert(-(x * num) == a * num) by (nonlinear_arith)
                    requires
                        a == -x,
                ;
                if num > 0 {
                    assert(x * num < 0) by (nonlinear_arith)
                        requires
                            x < 0,
                            num > 0,
                    ;
                } else {
                    assert(x * num == 0) by (nonlinear_arith)
                        requires
                            num == 0,
                    ;
                }
            } else {
                assert(a == x);
            }
        }
        let n: u128 = (size as u128) * (num as u128);
        let d: u128 = (rate as u128) * (den as u128);
        let f: u128 = rounded_ratio(n, d);
        assert(n == size * num && d == rate * den);
        if self.samples >= 0 || num == 0 {
            if f > 0x7fff_ffff_ffff_ffff {
                i64::MAX
            } else {
                f as i64
            }
        } else if f > 0x7fff_ffff_ffff_ffff {
            i64::MIN
        } else {
            -(f as i64)
        }
    }
}

#[derive(Clone, Copy, Debug, PartialEq, Eq, Structural)]
pub struct SyncTolerance {
    /// If the video frame counter drifts more than this many frames from the
    /// audio clock, it snaps back.
    pub tolerance_frames: i64,
}

impl Default for SyncTolerance {
    fn default() -> (r: Self)
        ensures
            r.tolerance_frames == 1,
    {
        SyncTolerance { tolerance_frames: 1 }
    }
}

#[derive(Clone, Copy, Debug, PartialEq, Eq, Structural)]
pub enum SyncDecision {
    Hold,
    SnapTo(u32),
}

/// What the video playhead does when the audio clock is at `audio_frame`.
pub open spec fn sync_decision(
    video_frame: u32,
    audio_frame: int,
    tolerance: int,
) -> SyncDecision {
    let drift = video_frame - audio_frame;
    if audio_frame < 0 || (-tolerance <= drift && drift <= tolerance) {
        SyncDecision::Hold
    } else {
        SyncDecision::SnapTo(wrap32(audio_frame) as u32)
    }
}

/// Decides whether the video playhead should snap to the audio clock.
pub fn decide(
    video_frame: u32,
    audio_clock: &AudioClock,
    framerate: Framerate,
    tolerance: SyncTolerance,
) -> (r: SyncDecision)
    ensures
        r == sync_decision(
            video_frame,
            frame_of_samples(audio_clock@.samples, audio_clock@.sample_rate, framerate),
            tolerance.tolerance_frames as int,
        ),
{
    let audio_frame: i64 = audio_clock.frame_at(framerate);
    if audio_frame < 0 {
        return SyncDecision::Hold;
    }
    let gap: i64 = video_frame as i64 - audio_frame;
    let drift: i64 = if gap < 0 {
        -gap
    } else {
        gap
    };
    if drift <= tolerance.tolerance_frames {
        SyncDecision::Hold
    } else {
        SyncDecision::SnapTo(low_bits(audio_frame as u64))
    }
}

/// A clock that was moved to a frame reports that frame, where samples come
/// at least as often as frames and the sample count is in range.
pub proof fn reset_clock_reports_frame(frame: u32, framerate: Framerate, rate: u32)
    requires
        framerate.0.num > 0,
        framerate.0.den > 0,
        rate > 0,
        framerate.0.num < rate * framerate.0.den,
        rounded(frame * framerate.0.den * rate, framerate.0.num as int) <= i64::MAX,
    ensures
        frame_of_samples(samples_at(frame, framerate, rate) as i64, rate, framerate) == frame,
{
    let n = framerate.0.num as int;
    let den = framerate.0.den as int;
    let r = rate as int;
    let f = frame as int;
    let d = r * den;
    product3(frame, framerate.0.den, rate);
    let x = f * den * r;
    assert(x == f * d) by (nonlinear_arith)
        requires
            x == f * den * r,
            d == r * den,
    ;
    let s = rounded(x, n);
    assert(x >= 0);
    assert(2 * n * s <= 2 * x + n < 2 * n * s + 2 * n) by {
        vstd::arithmetic::div_mod::lemma_fundamental_div_mod(2 * x + n, 2 * n);
        vstd::arithmetic::div_mod::lemma_mod_bound(2 * x + n, 2 * n);
    }
    assert(s >= 0) by (nonlinear_arith)
        requires
            2 * x + n < 2 * n * s + 2 * n,
            x >= 0,
            n > 0,
    ;
    assert(samples_at(frame, framerate, rate) == s);
    let y = s * n;
    assert(y == n * s && 2 * n * s == 2 * y) by (nonlinear_arith)
        requires
            y == s * n,
    ;
    assert(y >= 0) by (nonlinear_arith)
        requires
            y == s * n,
            s >= 0,
            n > 0,
    ;
    assert(d > 0) by (nonlinear_arith)
        requires
            d == r * den,
            r > 0,
            den > 0,
    ;
    assert(2 * y + d >= f * (2 * d) && 2 * y + d < (f + 1) * (2 * d)) by (nonlinear_arith)
        requires
            2 * y <= 2 * x + n,
            2 * x + n < 2 * y + 2 * n,
            x == f * d,
            n < d,
    ;
    let rem = (2 * y + d) - f * (2 * d);
    assert(2 * y + d == f * (2 * d) + rem);
    assert(0 <= rem < 2 * d) by (nonlinear_arith)
        requires
            2 * y + d >= f * (2 * d),
            2 * y + d < (f + 1) * (2 * d),
            rem == (2 * y + d) - f * (2 * d),
    ;
    vstd::arithmetic::div_mod::lemma_fundamental_div_mod_converse(2 * y + d, 2 * d, f, rem);
}

/// A playhead that is within the tolerance of the audio clock is left alone,
/// and snapping puts it where it is then left alone.
pub proof fn snapping_settles(video_frame: u32, audio_frame: u32, tolerance: int)
    requires
        tolerance >= 0,
    ensures
        match sync_decision(video_frame, audio_frame as int, tolerance) {
            SyncDecision::Hold => true,
            SyncDecision::SnapTo(f) => f == audio_frame && sync_decision(
                f,
                audio_frame as int,
                tolerance,
            ) == SyncDecision::Hold,
        },
{
}

/// Rounding gives the nearest integer: twice the error is at most the
/// denominator, and a half goes away from zero.
pub proof fn rounded_is_nearest(n: int, d: int)
    requires
        d > 0,
    ensures
        -d <= 2 * (rounded(n, d) * d - n) <= d,
        n >= 0 ==> rounded(n, d) >= 0 && 2 * (rounded(n, d) * d - n) > -d,
        n < 0 ==> rounded(n, d) <= 0 && 2 * (rounded(n, d) * d - n) < d,
        rounded(-n, d) == -rounded(n, d),
{
    let a = if n >= 0 {
        n
    } else {
        -n
    };
    let q = (2 * a + d) / (2 * d);
    let r = (2 * a + d) % (2 * d);
    vstd::arithmetic::div_mod::lemma_fundamental_div_mod(2 * a + d, 2 * d);
    vstd::arithmetic::div_mod::lemma_mod_bound(2 * a + d, 2 * d);
    assert(2 * (q * d) == (2 * d) * q) by (nonlinear_arith);
    assert((-q) * d == -(q * d)) by (nonlinear_arith);
    assert(q >= 0) by (nonlinear_arith)
        requires
            2 * a + d == (2 * d) * q + r,
            0 <= r < 2 * d,
            a >= 0,
            d > 0,
    ;
    if n == 0 {
        vstd::arithmetic::div_mod::lemma_fundamental_div_mod_converse(d, 2 * d, 0, d);
    }
}

/// The samples up to a frame fill its time: at the sample rate they last, to
/// within half a sample, as long as the frames before it at the framerate.
pub proof fn samples_fill_the_time(frame: u32, framerate: Framerate, rate: u32)
    requires
        framerate.0.num > 0,
        framerate.0.den > 0,
        samples_at(frame, framerate, rate) < i64::MAX,
    ensures
        -framerate.0.num <= 2 * (samples_at(frame, framerate, rate) * framerate.0.num - frame
            * framerate.0.den * rate) <= framerate.0.num,
        samples_at(0, framerate, rate) == 0,
{
    product3(frame, framerate.0.den, rate);
    rounded_is_nearest(frame * framerate.0.den * rate, framerate.0.num as int);
    assert(0 * framerate.0.den * rate == 0) by (nonlinear_arith);
    vstd::arithmetic::div_mod::lemma_fundamental_div_mod_converse(
        framerate.0.num as int,
        2 * framerate.0.num,
        0,
        framerate.0.num as int,
    );
}

/// The frame that samples lead to is the one nearest in time, before the start
/// as after it.
pub proof fn frames_follow_the_samples(samples: i64, rate: u32, framerate: Framerate)
    requires
        rate > 0,
        framerate.0.den > 0,
        i64::MIN < frame_of_samples(samples, rate, framerate) < i64::MAX,
    ensures
        ({
            let d = rate * framerate.0.den;
            -d <= 2 * (frame_of_samples(samples, rate, framerate) * d - samples * framerate.0.num)
                <= d
        }),
        samples > i64::MIN ==> frame_of_samples((-samples) as i64, rate, framerate)
            == -frame_of_samples(samples, rate, framerate),
{
    let d = rate * framerate.0.den;
    assert(d > 0) by (nonlinear_arith)
        requires
            d == rate * framerate.0.den,
            rate > 0,
            framerate.0.den > 0,
    ;
    let n = samples * framerate.0.num;
    rounded_is_nearest(n, d);
    assert((-samples) * framerate.0.num == -n) by (nonlinear_arith)
        requires
            n == samples * framerate.0.num,
    ;
}

/// The playhead is left alone exactly while it is within the tolerance of the
/// clock, or the clock is before the start; else it goes to the clock's frame.
pub proof fn drift_decides(video_frame: u32, audio_frame: u32, tolerance: nat)
    ensures
        sync_decision(video_frame, audio_frame as int, tolerance as int) == SyncDecision::Hold
            <==> audio_frame <= video_frame + tolerance && video_frame <= audio_frame + tolerance,
        sync_decision(video_frame, audio_frame as int, tolerance as int) is SnapTo
            ==> sync_decision(video_frame, audio_frame as int, tolerance as int)->SnapTo_0
            == audio_frame,
        forall|a: int| a < 0 ==> #[trigger] sync_decision(video_frame, a, tolerance as int)
            == SyncDecision::Hold,
{
}

/// Counting on adds the samples, as long as the count fits, and counting back
/// takes them off again.
pub proof fn counts_add_up(samples: i64, delta: i64)
    requires
        i64::MIN <= samples + delta <= i64::MAX,
    ensures
        wrap64(samples + delta) == samples + delta,
        wrap64(wrap64(samples + delta) - delta) == samples,
{
}

/// Where a rate is missing: samples without a rate count as one per second;
/// without a framerate nothing but the start is ever reached; and with a
/// framerate beyond all bounds the sign of the count decides.
pub proof fn missing_rates_are_read(frame: u32, samples: i64, rate: u32, framerate: Framerate)
    ensures
        frame_of_samples(samples, 0, framerate) == frame_of_samples(samples, 1, framerate),
        framerate.0.den == 0 ==> samples_at(frame, framerate, rate) == 0,
        framerate.0.den > 0 && framerate.0.num == 0 && frame > 0 && rate > 0 ==> samples_at(
            frame,
            framerate,
            rate,
        ) == i64::MAX,
        framerate.0.den > 0 && framerate.0.num == 0 && (frame == 0 || rate == 0) ==> samples_at(
            frame,
            framerate,
            rate,
        ) == 0,
        framerate.0.den == 0 && framerate.0.num > 0 && samples > 0 ==> frame_of_samples(
            samples,
            rate,
            framerate,
        ) == i64::MAX,
        framerate.0.den == 0 && framerate.0.num > 0 && samples < 0 ==> frame_of_samples(
            samples,
            rate,
            framerate,
        ) == i64::MIN,
        framerate.0.den == 0 && (samples == 0 || framerate.0.num == 0) ==> frame_of_samples(
            samples,
            rate,
            framerate,
        ) == 0,
{
}

} // verus!
