//! Per-asset audio waveform thumbnail.
//!
//! Reduces a long buffer to a fixed number of bins; each bin holds the least
//! and the greatest amplitude of its time window.

use crate::scalar::{finite, less, scalar, zero, Scalar, INFINITY_BITS};
use vstd::prelude::*;

verus! {

#[derive(Clone, Copy, Debug, PartialEq, Eq, Structural)]
pub struct WaveformBin {
    pub min: Scalar,
    pub max: Scalar,
}

/// The bin of a window without samples.
pub open spec fn silent_bin() -> WaveformBin {
    WaveformBin { min: zero(), max: zero() }
}

impl Default for WaveformBin {
    fn default() -> (r: Self)
        ensures
            r == silent_bin(),
    {
        WaveformBin { min: Scalar::zero(), max: Scalar::zero() }
    }
}

#[derive(Debug, PartialEq)]
pub struct Waveform {
    pub bins: Vec<WaveformBin>,
}

impl Default for Waveform {
    fn default() -> (r: Self)
        ensures
            r.bins@ == Seq::<WaveformBin>::empty(),
    {
        Waveform { bins: Vec::new() }
    }
}

/// Bit pattern of negative infinity.
pub const NEG_INFINITY_BITS: u32 = 0xff80_0000;

/// The least number of `s`, infinity if there is none.
pub open spec fn least(s: Seq<Scalar>) -> Scalar
    decreases s.len(),
{
    if s.len() == 0 {
        scalar(INFINITY_BITS)
    } else if less(s.last(), least(s.drop_last())) {
        s.last()
    } else {
        least(s.drop_last())
    }
}

/// The greatest number of `s`, negative infinity if there is none.
pub open spec fn greatest(s: Seq<Scalar>) -> Scalar
    decreases s.len(),
{
    if s.len() == 0 {
        scalar(NEG_INFINITY_BITS)
    } else if less(greatest(s.drop_last()), s.last()) {
        s.last()
    } else {
        greatest(s.drop_last())
    }
}

/// `s`, or zero if it is not finite.
pub open spec fn finite_or_zero(s: Scalar) -> Scalar {
    if finite(s) {
        s
    } else {
        zero()
    }
}

/// The bin of the samples `s`.
pub open spec fn bin_of(s: Seq<Scalar>) -> WaveformBin {
    WaveformBin { min: finite_or_zero(least(s)), max: finite_or_zero(greatest(s)) }
}

/// How many frames one of `bins` windows covers, rounded up.
pub open spec fn frames_per_bin(frames: int, bins: int) -> int {
    (frames + bins - 1) / bins
}

/// The first frame of window `i`, at most `frames`.
pub open spec fn bin_start(frames: int, bins: int, i: int) -> int {
    let at = i * frames_per_bin(frames, bins);
    if at > frames {
        frames
    } else {
        at
    }
}

/// The bins of `mono`, at least one.
pub open spec fn waveform_bins(mono: Seq<Scalar>, target_bins: int) -> Seq<WaveformBin> {
    let bins = if target_bins == 0 {
        1
    } else {
        target_bins
    };
    Seq::new(
        bins as nat,
        |i: int|
            if bin_start(mono.len() as int, bins, i) < bin_start(mono.len() as int, bins, i + 1) {
                bin_of(
                    mono.subrange(
                        bin_start(mono.len() as int, bins, i),
                        bin_start(mono.len() as int, bins, i + 1),
                    ),
                )
            } else {
                silent_bin()
            },
    )
}

/// The windows of a waveform cover every frame: each frame lies in exactly the
/// window that its number divided by the window length gives.
pub proof fn windows_cover(frames: int, bins: int, f: int)
    requires
        0 <= f < frames,
        bins > 0,
    ensures
        ({
            let i = f / frames_per_bin(frames, bins);
            &&& 0 <= i < bins
            &&& bin_start(frames, bins, i) <= f < bin_start(frames, bins, i + 1)
        }),
{
    let w = frames_per_bin(frames, bins);
    vstd::arithmetic::div_mod::lemma_fundamental_div_mod(frames + bins - 1, bins);
    vstd::arithmetic::div_mod::lemma_mod_bound(frames + bins - 1, bins);
    assert(bins * w >= frames);
    assert(w > 0) by (nonlinear_arith)
        requires
            bins * w >= frames,
            frames > 0,
            bins > 0,
    ;
    let i = f / w;
    vstd::arithmetic::div_mod::lemma_fundamental_div_mod(f, w);
    vstd::arithmetic::div_mod::lemma_mod_bound(f, w);
    assert(w * i <= f < w * i + w);
    assert(i * w == w * i && (i + 1) * w == w * i + w) by (nonlinear_arith);
    assert(0 <= i) by (nonlinear_arith)
        requires
            f < w * i + w,
            f >= 0,
            w > 0,
    ;
    assert(i < bins) by (nonlinear_arith)
        requires
            w * i <= f,
            f < frames,
            frames <= bins * w,
            w > 0,
    ;
}

fn bin_start_at(frames: usize, per_bin: usize, i: usize) -> (r: usize)
    ensures
        r == if i * per_bin > frames {
            frames as int
        } else {
            i * per_bin
        },
{
    proof {
        assert(0 <= i * per_bin <= 0xffff_ffff_ffff_ffff * 0xffff_ffff_ffff_ffff)
            by (nonlinear_arith)
            requires
                0 <= i <= 0xffff_ffff_ffff_ffff,
                0 <= per_bin <= 0xffff_ffff_ffff_ffff,
        ;
    }
    let at: u128 = (i as u128) * (per_bin as u128);
    if at > frames as u128 {
        frames
    } else {
        at as usize
    }
}

fn bin_between(mono: &Vec<Scalar>, start: usize, end: usize) -> (r: WaveformBin)
    requires
        start <= end <= mono.len(),
    ensures
        r == bin_of(mono@.subrange(start as int, end as int)),
{
    let mut min = Scalar::from_bits(INFINITY_BITS);
    let mut max = Scalar::from_bits(NEG_INFINITY_BITS);
    let mut f: usize = start;
    while f < end
        invariant
            start <= f <= end <= mono.len(),
            min == least(mono@.subrange(start as int, f as int)),
            max == greatest(mono@.subrange(start as int, f as int)),
        decreases end - f,
    {
        let ghost head = mono@.subrange(start as int, f + 1);
        assert(head.drop_last() =~= mono@.subrange(start as int, f as int));
        let v = mono[f];
        if v.is_less(min) {
            min = v;
        }
        if max.is_less(v) {
            max = v;
        }
        f = f + 1;
    }
    WaveformBin {
        min: if min.is_finite() {
            min
        } else {
            Scalar::zero()
        },
        max: if max.is_finite() {
            max
        } else {
            Scalar::zero()
        },
    }
}

/// Computes a waveform with `target_bins` bins from the samples of one
/// channel.
pub fn compute_waveform(mono: &Vec<Scalar>, target_bins: usize) -> (r: Waveform)
    ensures
        r.bins@ == waveform_bins(mono@, target_bins as int),
{
    let bins: usize = if target_bins == 0 {
        1
    } else {
        target_bins
    };
    let frames: usize = mono.len();
    let whole: usize = frames / bins;
    let per_bin: usize = if frames % bins == 0 {
        whole
    } else {
        proof {
            assert(whole < usize::MAX) by {
                if bins == 1 {
                    assert(frames % bins == 0);
                }
                vstd::arithmetic::div_mod::lemma_div_is_ordered_by_denominator(
                    frames as int,
                    2,
                    bins as int,
                );
            }
        }
        whole + 1
    };
    proof {
        let f = frames as int;
        let b = bins as int;
        vstd::arithmetic::div_mod::lemma_fundamental_div_mod(f, b);
        vstd::arithmetic::div_mod::lemma_mod_bound(f, b);
        let m = f % b;
        if m == 0 {
            vstd::arithmetic::div_mod::lemma_fundamental_div_mod_converse(
                f + b - 1,
                b,
                whole as int,
                b - 1,
            );
        } else {
            assert(f + b - 1 == b * (whole + 1) + (m - 1)) by (nonlinear_arith)
                requires
                    f == b * whole + m,
            ;
            vstd::arithmetic::div_mod::lemma_fundamental_div_mod_converse(
                f + b - 1,
                b,
                whole + 1,
                m - 1,
            );
        }
        assert(per_bin == frames_per_bin(f, b));
    }
    let mut out: Vec<WaveformBin> = Vec::new();
    let mut i: usize = 0;
    let ghost all = waveform_bins(mono@, target_bins as int);
    while i < bins
        invariant
            i <= bins,
            frames == mono.len(),
            bins == if target_bins == 0 {
                1
            } else {
                target_bins as int
            },
            per_bin == frames_per_bin(frames as int, bins as int),
            all == waveform_bins(mono@, target_bins as int),
            out@ == all.take(i as int),
        decreases bins - i,
    {
        let start: usize = bin_start_at(frames, per_bin, i);
        let end: usize = bin_start_at(frames, per_bin, i + 1);
        let bin = if start < end {
            bin_between(mono, start, end)
        } else {
            WaveformBin::default()
        };
        assert(bin == all[i as int]);
        out.push(bin);
        i = i + 1;
        assert(out@ =~= all.take(i as int));
    }
    assert(all.take(i as int) =~= all);
    Waveform { bins: out }
}

/// Windows are as short as they can be to cover all frames.
pub proof fn windows_are_tight(frames: int, bins: int)
    requires
        frames >= 0,
        bins > 0,
    ensures
        frames <= frames_per_bin(frames, bins) * bins < frames + bins,
{
    let w = frames_per_bin(frames, bins);
    vstd::arithmetic::div_mod::lemma_fundamental_div_mod(frames + bins - 1, bins);
    vstd::arithmetic::div_mod::lemma_mod_bound(frames + bins - 1, bins);
    assert(w * bins == bins * w) by (nonlinear_arith);
}

proof fn extremes_bound(s: Seq<Scalar>)
    requires
        forall|i: int| 0 <= i < s.len() ==> finite(#[trigger] s[i]),
    ensures
        s.len() > 0 ==> s.contains(least(s)) && s.contains(greatest(s)),
        s.len() == 0 ==> least(s) == scalar(INFINITY_BITS) && greatest(s) == scalar(
            NEG_INFINITY_BITS,
        ),
        forall|i: int| 0 <= i < s.len() ==> !less(#[trigger] s[i], least(s)),
        forall|i: int| 0 <= i < s.len() ==> !less(greatest(s), #[trigger] s[i]),
    decreases s.len(),
{
    if s.len() > 0 {
        let t = s.drop_last();
        assert forall|i: int| 0 <= i < t.len() implies finite(#[trigger] t[i]) by {
            assert(t[i] == s[i]);
        }
        extremes_bound(t);
        let n = s.len() - 1;
        assert(s[n] == s.last());
        if t.len() > 0 {
            let a = choose|a: int| 0 <= a < t.len() && t[a] == least(t);
            let b = choose|b: int| 0 <= b < t.len() && t[b] == greatest(t);
            assert(s[a] == least(t) && s[b] == greatest(t));
        }
        assert forall|i: int| 0 <= i < s.len() implies !less(#[trigger] s[i], least(s)) by {
            if i < n {
                assert(t[i] == s[i]);
            }
        }
        assert forall|i: int| 0 <= i < s.len() implies !less(greatest(s), #[trigger] s[i]) by {
            if i < n {
                assert(t[i] == s[i]);
            }
        }
    }
}

/// The bin of finite samples is from the least to the greatest of them: both
/// are among the samples and all samples lie between them.
pub proof fn bin_holds_the_extremes(s: Seq<Scalar>, i: int)
    requires
        0 <= i < s.len(),
        forall|k: int| 0 <= k < s.len() ==> finite(#[trigger] s[k]),
    ensures
        s.contains(bin_of(s).min),
        s.contains(bin_of(s).max),
        !less(s[i], bin_of(s).min),
        !less(bin_of(s).max, s[i]),
{
    extremes_bound(s);
    let a = choose|a: int| 0 <= a < s.len() && s[a] == least(s);
    let b = choose|b: int| 0 <= b < s.len() && s[b] == greatest(s);
    assert(finite(s[a]) && finite(s[b]));
}

/// Every frame shows in the bin of its time: the frame's sample lies between
/// the bin's bounds.
pub proof fn every_frame_shows(mono: Seq<Scalar>, bins: int, f: int)
    requires
        0 <= f < mono.len(),
        bins > 0,
        forall|k: int| 0 <= k < mono.len() ==> finite(#[trigger] mono[k]),
    ensures
        waveform_bins(mono, bins).len() == bins,
        ({
            let i = f / frames_per_bin(mono.len() as int, bins);
            &&& 0 <= i < bins
            &&& !less(mono[f], waveform_bins(mono, bins)[i].min)
            &&& !less(waveform_bins(mono, bins)[i].max, mono[f])
        }),
{
    let n = mono.len() as int;
    windows_cover(n, bins, f);
    let i = f / frames_per_bin(n, bins);
    let a = bin_start(n, bins, i);
    let b = bin_start(n, bins, i + 1);
    assert(a >= 0) by {
        windows_are_tight(n, bins);
        let w = frames_per_bin(n, bins);
        assert(w >= 0) by (nonlinear_arith)
            requires
                w * bins >= n,
                n >= 0,
                bins > 0,
        ;
        assert(i * w >= 0) by (nonlinear_arith)
            requires
                i >= 0,
                w >= 0,
        ;
    }
    let s = mono.subrange(a, b);
    assert forall|k: int| 0 <= k < s.len() implies finite(#[trigger] s[k]) by {
        assert(s[k] == mono[a + k]);
    }
    bin_holds_the_extremes(s, f - a);
}

/// There are as many bins as were asked for, and one if none was.
pub proof fn bins_are_as_many_as_asked(mono: Seq<Scalar>, n: nat)
    ensures
        n > 0 ==> waveform_bins(mono, n as int).len() == n,
        waveform_bins(mono, 0) == waveform_bins(mono, 1),
        waveform_bins(mono, 0).len() == 1,
{
}

} // verus!
