//! What a probe of a media file reports.

use crate::media::av_sync::rounded;
use vstd::prelude::*;

verus! {

#[derive(Debug, PartialEq, Eq)]
pub struct VideoInfo {
    pub width: u32,
    pub height: u32,
    pub duration_nanos: u128,
    /// Average framerate as (num, den).
    pub framerate: (u32, u32),
    /// For example "h264", "hevc", "vp9", "prores".
    pub codec: String,
}

#[derive(Clone, Copy, Debug, PartialEq, Eq, Structural)]
pub struct AudioInfo {
    pub sample_rate: u32,
    pub channels: u32,
    pub duration_nanos: u128,
}

impl Default for AudioInfo {
    fn default() -> (r: Self)
        ensures
            r == (AudioInfo { sample_rate: 0, channels: 0, duration_nanos: 0 }),
    {
        AudioInfo { sample_rate: 0, channels: 0, duration_nanos: 0 }
    }
}

/// `ticks` of a time base of `num / den` seconds, in nanoseconds to the
/// nearest; 0 for a negative time and for a time base without a value.
pub open spec fn ticks_nanos(ticks: i64, num: i32, den: i32) -> int {
    if den == 0 {
        0
    } else {
        let n = if den < 0 {
            -(ticks * num)
        } else {
            ticks * num
        };
        let d = if den < 0 {
            -den
        } else {
            den as int
        };
        if n <= 0 {
            0
        } else {
            rounded(n * 1_000_000_000, d)
        }
    }
}

/// `ticks` of a time base of `num / den` seconds, in nanoseconds.
pub fn nanos_of_ticks(ticks: i64, num: i32, den: i32) -> (r: u128)
    ensures
        r == ticks_nanos(ticks, num, den),
{
    if den == 0 {
        return 0;
    }
    proof {
        assert(-0x8000_0000_0000_0000 * 0x8000_0000 <= ticks * num <= 0x8000_0000_0000_0000
            * 0x8000_0000) by (nonlinear_arith)
            requires
                -0x8000_0000_0000_0000 <= ticks <= 0x7fff_ffff_ffff_ffff,
                -0x8000_0000 <= num <= 0x7fff_ffff,
        ;
    }
    let product: i128 = (ticks as i128) * (num as i128);
    let n: i128 = if den < 0 {
        -product
    } else {
        product
    };
    let d: i128 = if den < 0 {
        -(den as i128)
    } else {
        den as i128
    };
    if n <= 0 {
        return 0;
    }
    let scaled: u128 = (n as u128) * 1_000_000_000;
    (2 * scaled + d as u128) / (2 * (d as u128))
}

/// A count of `ticks` from the start, in nanoseconds. A negative count is not
/// after the start, whatever the time base, and gives 0.
pub open spec fn stamp_nanos(ticks: i64, num: i32, den: i32) -> int {
    if ticks < 0 {
        0
    } else {
        ticks_nanos(ticks, num, den)
    }
}

/// A count of `ticks` from the start, in nanoseconds.
pub fn nanos_of_stamp(ticks: i64, num: i32, den: i32) -> (r: u128)
    ensures
        r == stamp_nanos(ticks, num, den),
{
    if ticks < 0 {
        0
    } else {
        nanos_of_ticks(ticks, num, den)
    }
}

/// The framerate that a probe reports: the numerator as it is, and at least 1
/// as the denominator.
pub open spec fn probed_framerate(num: i32, den: i32) -> (int, int) {
    (
        crate::model::time::wrap32(num as int),
        if den < 1 {
            1
        } else {
            den as int
        },
    )
}

/// The framerate that a probe reports.
pub fn framerate_of(num: i32, den: i32) -> (r: (u32, u32))
    ensures
        (r.0 as int, r.1 as int) == probed_framerate(num, den),
{
    let n: u32 = if num < 0 {
        (num as i64 + 0x1_0000_0000) as u32
    } else {
        num as u32
    };
    let d: u32 = if den < 1 {
        1
    } else {
        den as u32
    };
    (n, d)
}

/// Ticks last as long as they count: in nanoseconds, to within half a one,
/// the count times the length of a tick.
pub proof fn ticks_last(ticks: i64, num: i32, den: i32)
    requires
        ticks >= 0,
        num >= 0,
        den > 0,
    ensures
        -den <= 2 * (ticks_nanos(ticks, num, den) * den - ticks * num * 1_000_000_000) <= den,
        stamp_nanos(ticks, num, den) == ticks_nanos(ticks, num, den),
        ticks_nanos(0, num, den) == 0,
        ticks < i64::MAX ==> stamp_nanos((-1 - ticks) as i64, num, den) == 0,
{
    let n = ticks * num;
    assert(n >= 0) by (nonlinear_arith)
        requires
            n == ticks * num,
            ticks >= 0,
            num >= 0,
    ;
    assert(0 * num == 0) by (nonlinear_arith);
    crate::media::av_sync::rounded_is_nearest(n * 1_000_000_000, den as int);
    if n == 0 {
        assert(0 * (den as int) == 0) by (nonlinear_arith);
    }
}

/// A time base whose two parts change their sign together is the same time
/// base.
pub proof fn signs_cancel(ticks: i64, num: i32, den: i32)
    requires
        num > i32::MIN,
        den > i32::MIN,
    ensures
        ticks_nanos(ticks, (-num) as i32, (-den) as i32) == ticks_nanos(ticks, num, den),
{
    assert(ticks * (-num) == -(ticks * num)) by (nonlinear_arith);
}

/// A proper framerate is reported as it is, and any other has a denominator
/// all the same.
pub proof fn framerates_are_kept(num: i32, den: i32)
    ensures
        probed_framerate(num, den).1 >= 1,
        den >= 1 ==> probed_framerate(num, den).1 == den,
        num >= 0 ==> probed_framerate(num, den).0 == num,
        (probed_framerate(num, den).0 - num) % 0x1_0000_0000 == 0,
{
}

} // verus!
