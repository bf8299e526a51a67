//! Raw audio samples: reads the samples of a decoded frame, whatever their
//! format, into one interleaved sequence.

use crate::bytes::{
    byte_range, le_bytes, le_bytes_len, le_round_trip, le_value, read_le, signed, twos,
};
use crate::media::av_sync::rounded;
use crate::media::mixer::source_frames;
use crate::scalar::{scalar, Scalar};
use vstd::prelude::*;

verus! {

/// Master sample rate.
pub const DEFAULT_SAMPLE_RATE: u32 = 48_000;

pub const CHANNELS: u32 = 2;

/// One decoded audio asset: interleaved samples, frames times channels.
#[derive(Debug, PartialEq)]
pub struct DecodedAudio {
    pub sample_rate: u32,
    pub channels: u32,
    pub pcm: Vec<Scalar>,
}

impl DecodedAudio {
    /// How many whole frames there are.
    pub fn frames(&self) -> (r: usize)
        ensures
            r == source_frames(self.pcm@.len() as int, self.channels as int),
    {
        if self.channels == 0 {
            0
        } else {
            self.pcm.len() / (self.channels as usize)
        }
    }

    /// How long the audio plays, in nanoseconds to the nearest. A rate of zero
    /// counts as one.
    pub fn duration_nanos(&self) -> (r: u128)
        ensures
            r == rounded(
                source_frames(self.pcm@.len() as int, self.channels as int) * 1_000_000_000,
                if self.sample_rate == 0 {
                    1
                } else {
                    self.sample_rate as int
                },
            ),
    {
        let rate: u128 = if self.sample_rate == 0 {
            1
        } else {
            self.sample_rate as u128
        };
        let n: u128 = (self.frames() as u128) * 1_000_000_000;
        (2 * n + rate) / (2 * rate)
    }
}

/// How a sample is written.
#[derive(Clone, Copy, Debug, PartialEq, Eq, Structural)]
pub enum SampleType {
    I16,
    I32,
    F32,
    F64,
    /// Any other format.
    Other,
}

/// Whether the channels of a frame stand side by side in one block or each in
/// a block of its own.
#[derive(Clone, Copy, Debug, PartialEq, Eq, Structural)]
pub enum SampleLayout {
    Packed,
    Planar,
}

/// One sample as it was written. Numbers of double precision are held by
/// their bit patterns.
#[derive(Clone, Copy, Debug, PartialEq, Eq, Structural)]
pub enum RawSample {
    Silence,
    I16(i16),
    I32(i32),
    F32(Scalar),
    F64(u64),
}

/// Bytes per sample.
pub open spec fn sample_width(t: SampleType) -> int {
    match t {
        SampleType::I16 => 2,
        SampleType::I32 => 4,
        SampleType::F32 => 4,
        SampleType::F64 => 8,
        SampleType::Other => 1,
    }
}

/// The sample of type `t` at byte `at` of `b`.
pub open spec fn sample_at(t: SampleType, b: Seq<u8>, at: int) -> RawSample {
    match t {
        SampleType::I16 => RawSample::I16(signed(le_value(b, at, 2), 0x1_0000) as i16),
        SampleType::I32 => RawSample::I32(signed(le_value(b, at, 4), 0x1_0000_0000) as i32),
        SampleType::F32 => RawSample::F32(scalar(le_value(b, at, 4) as u32)),
        SampleType::F64 => RawSample::F64(le_value(b, at, 8) as u64),
        SampleType::Other => RawSample::Silence,
    }
}

/// Whether samples of this type can be read, in either layout.
pub open spec fn readable(t: SampleType) -> bool {
    t != SampleType::Other
}

/// The interleaved samples of a frame of `n` samples per channel. A packed
/// block that is too short gives nothing; a plane that is too short gives
/// silence from there on; a format that cannot be read gives silence.
pub open spec fn frame_samples(
    t: SampleType,
    layout: SampleLayout,
    planes: Seq<Vec<u8>>,
    n: int,
    channels: int,
) -> Seq<RawSample> {
    let w = sample_width(t);
    let total = n * channels;
    if !readable(t) {
        Seq::new(total as nat, |k: int| RawSample::Silence)
    } else if layout == SampleLayout::Packed {
        if n == 0 || planes[0]@.len() < total * w {
            Seq::empty()
        } else {
            Seq::new(total as nat, |k: int| sample_at(t, planes[0]@, k * w))
        }
    } else {
        Seq::new(
            total as nat,
            |k: int|
                {
                    let b = planes[k % channels]@;
                    let at = (k / channels) * w;
                    if at + w <= b.len() {
                        sample_at(t, b, at)
                    } else {
                        RawSample::Silence
                    }
                },
        )
    }
}

fn read_sample(t: SampleType, b: &Vec<u8>, at: usize) -> (r: RawSample)
    requires
        at + sample_width(t) <= b.len(),
    ensures
        r == sample_at(t, b@, at as int),
{
    proof {
        reveal_with_fuel(byte_range, 9);
    }
    match t {
        SampleType::I16 => {
            let u: u64 = read_le(b, at, 2);
            let v: i64 = if u >= 0x8000 {
                u as i64 - 0x1_0000
            } else {
                u as i64
            };
            RawSample::I16(v as i16)
        },
        SampleType::I32 => {
            let u: u64 = read_le(b, at, 4);
            let v: i64 = if u >= 0x8000_0000 {
                u as i64 - 0x1_0000_0000
            } else {
                u as i64
            };
            RawSample::I32(v as i32)
        },
        SampleType::F32 => RawSample::F32(Scalar::from_bits(read_le(b, at, 4) as u32)),
        SampleType::F64 => RawSample::F64(read_le(b, at, 8)),
        SampleType::Other => RawSample::Silence,
    }
}

fn width_of(t: SampleType) -> (r: usize)
    ensures
        r == sample_width(t),
{
    match t {
        SampleType::I16 => 2,
        SampleType::I32 => 4,
        SampleType::F32 => 4,
        SampleType::F64 => 8,
        SampleType::Other => 1,
    }
}

/// Appends the interleaved samples of a frame.
pub fn append_frame(
    t: SampleType,
    layout: SampleLayout,
    planes: &Vec<Vec<u8>>,
    n: usize,
    channels: u32,
    out: &mut Vec<RawSample>,
)
    requires
        n * channels * 8 <= usize::MAX,
        n * 8 + 8 <= usize::MAX,
        n > 0 && readable(t) && layout == SampleLayout::Packed ==> planes.len() >= 1,
        n > 0 && readable(t) && layout == SampleLayout::Planar ==> planes.len() >= channels,
    ensures
        final(out)@ == old(out)@ + frame_samples(t, layout, planes@, n as int, channels as int),
{
    let ghost start = out@;
    if n == 0 {
        proof {
            assert(0 * channels == 0) by (nonlinear_arith);
            assert(start + frame_samples(t, layout, planes@, 0, channels as int) =~= start);
        }
        return;
    }
    let ch: usize = channels as usize;
    proof {
        assert(0 <= n * channels <= n * channels * 8) by (nonlinear_arith)
            requires
                n >= 0,
                channels >= 0,
        ;
    }
    let total: usize = n * ch;
    let w: usize = width_of(t);
    let known = match t {
        SampleType::Other => false,
        _ => true,
    };
    let ghost all = frame_samples(t, layout, planes@, n as int, channels as int);
    let mut k: usize = 0;
    if !known {
        while k < total
            invariant
                k <= total,
                total == n * channels,
                !readable(t),
                all == frame_samples(t, layout, planes@, n as int, channels as int),
                out@ == start + all.take(k as int),
            decreases total - k,
        {
            out.push(RawSample::Silence);
            k = k + 1;
            assert(out@ =~= start + all.take(k as int));
        }
        assert(all.take(k as int) =~= all);
        return;
    }
    match layout {
        SampleLayout::Packed => {
            let b = &planes[0];
            proof {
                assert(total * w <= total * 8) by (nonlinear_arith)
                    requires
                        total >= 0,
                        w <= 8,
                ;
            }
            if b.len() < total * w {
                assert(start + all =~= start);
                return;
            }
            assert(out@ =~= start + all.take(0));
            while k < total
                invariant
                    k <= total,
                    total == n * channels,
                    n > 0,
                    w == sample_width(t),
                    *b == planes@[0],
                    b.len() >= total * w,
                    total * w <= usize::MAX,
                    readable(t),
                    layout == SampleLayout::Packed,
                    all == frame_samples(t, layout, planes@, n as int, channels as int),
                    out@ == start + all.take(k as int),
                decreases total - k,
            {
                proof {
                    assert(k * w + w <= total * w) by (nonlinear_arith)
                        requires
                            k + 1 <= total,
                            w >= 0,
                    ;
                    assert(k * w >= 0) by (nonlinear_arith)
                        requires
                            k >= 0,
                            w >= 0,
                    ;
                }
                let s = read_sample(t, b, k * w);
                assert(s == all[k as int]);
                out.push(s);
                k = k + 1;
                assert(out@ =~= start + all.take(k as int));
            }
            assert(all.take(k as int) =~= all);
        },
        SampleLayout::Planar => {
            assert(out@ =~= start + all.take(0));
            let mut i: usize = 0;
            assert(0 * ch == 0) by (nonlinear_arith);
            while i < n
                invariant
                    i <= n,
                    total == n * channels,
                    ch == channels,
                    total <= usize::MAX,
                    n * 8 + 8 <= usize::MAX,
                    planes.len() >= channels,
                    w == sample_width(t),
                    w <= 8,
                    readable(t),
                    layout == SampleLayout::Planar,
                    all == frame_samples(t, layout, planes@, n as int, channels as int),
                    k == i * ch,
                    out@ == start + all.take(k as int),
                decreases n - i,
            {
                let mut c: usize = 0;
                proof {
                    assert(i * ch + ch <= n * ch) by (nonlinear_arith)
                        requires
                            i + 1 <= n,
                            ch >= 0,
                    ;
                    assert(i * w <= n * 8) by (nonlinear_arith)
                        requires
                            0 <= i <= n,
                            0 <= w <= 8,
                    ;
                }
                while c < ch
                    invariant
                        c <= ch,
                        i < n,
                        total == n * channels,
                        ch == channels,
                        i * ch + ch <= total,
                        total <= usize::MAX,
                        n * 8 + 8 <= usize::MAX,
                        i * w <= n * 8,
                        planes.len() >= channels,
                        w == sample_width(t),
                        w <= 8,
                        readable(t),
                        layout == SampleLayout::Planar,
                        all == frame_samples(t, layout, planes@, n as int, channels as int),
                        k == i * ch + c,
                        out@ == start + all.take(k as int),
                    decreases ch - c,
                {
                    let plane = &planes[c];
                    let at: usize = i * w;
                    let s = if at + w <= plane.len() {
                        read_sample(t, plane, at)
                    } else {
                        RawSample::Silence
                    };
                    proof {
                        vstd::arithmetic::div_mod::lemma_fundamental_div_mod_converse(
                            k as int,
                            ch as int,
                            i as int,
                            c as int,
                        );
                        assert(all.len() == total);
                        assert(s == all[k as int]);
                    }
                    out.push(s);
                    k = k + 1;
                    c = c + 1;
                    assert(out@ =~= start + all.take(k as int));
                }
                i = i + 1;
                assert(i * ch == (i - 1) * ch + ch) by (nonlinear_arith);
            }
            assert(all.take(k as int) =~= all);
        },
    }
}

/// What a decoder of sound, or the file that feeds it, has just done.
#[derive(Clone, Copy, Debug, PartialEq, Eq, Structural)]
pub enum AudioEvent {
    /// The file was opened.
    Start,
    /// The file gave a packet of the audio stream.
    OwnPacket,
    /// The file gave a packet of another stream.
    OtherPacket,
    /// The file has no more packets.
    EndOfFile,
    /// The file could not be read.
    ReadFailed,
    /// The decoder took the packet, or the notice of the end.
    Taken,
    /// The decoder refused the packet, or the notice of the end.
    Refused,
    /// The decoder gave a frame.
    FrameReady,
    /// The frame was appended to the samples.
    Appended,
    /// The decoder has no frame.
    NoFrame,
    /// The decoder failed.
    DecodeFailed,
}

/// What to do next.
#[derive(Clone, Copy, Debug, PartialEq, Eq, Structural)]
pub enum AudioStep {
    /// Read a packet from the file.
    ReadPacket,
    /// Hand the packet to the decoder.
    SendPacket,
    /// Tell the decoder that the file has ended.
    SendEnd,
    /// Ask the decoder for a frame.
    Receive,
    /// Append the frame to the samples.
    Append,
    /// Return the samples.
    Finish,
    /// Return the error.
    Fail,
}

/// How the sound of a whole file is read, when `ended` says whether the end of
/// the file was reached: each packet of the audio stream is decoded to its
/// last frame before the next one is read; packets of other streams are passed
/// over; at the end what the decoder still holds is taken out.
pub open spec fn audio_step(ended: bool, e: AudioEvent) -> AudioStep {
    match e {
        AudioEvent::Start => AudioStep::ReadPacket,
        AudioEvent::OwnPacket => AudioStep::SendPacket,
        AudioEvent::OtherPacket => AudioStep::ReadPacket,
        AudioEvent::EndOfFile => AudioStep::SendEnd,
        AudioEvent::ReadFailed => AudioStep::Fail,
        AudioEvent::Taken => AudioStep::Receive,
        AudioEvent::Refused => AudioStep::Fail,
        AudioEvent::FrameReady => AudioStep::Append,
        AudioEvent::Appended => AudioStep::Receive,
        AudioEvent::NoFrame => if ended {
            AudioStep::Finish
        } else {
            AudioStep::ReadPacket
        },
        AudioEvent::DecodeFailed => AudioStep::Fail,
    }
}

/// The state of reading the sound of a file.
#[derive(Clone, Copy, Debug, PartialEq, Eq, Structural)]
pub struct AudioReader {
    /// The end of the file was reached.
    pub ended: bool,
}

impl AudioReader {
    pub fn new() -> (r: Self)
        ensures
            !r.ended,
    {
        AudioReader { ended: false }
    }

    /// What to do after `e`.
    pub fn step(&mut self, e: AudioEvent) -> (r: AudioStep)
        ensures
            r == audio_step(old(self).ended, e),
            final(self).ended == (old(self).ended || e == AudioEvent::EndOfFile),
    {
        match e {
            AudioEvent::Start | AudioEvent::OtherPacket => AudioStep::ReadPacket,
            AudioEvent::OwnPacket => AudioStep::SendPacket,
            AudioEvent::EndOfFile => {
                self.ended = true;
                AudioStep::SendEnd
            },
            AudioEvent::Taken | AudioEvent::Appended => AudioStep::Receive,
            AudioEvent::FrameReady => AudioStep::Append,
            AudioEvent::NoFrame => if self.ended {
                AudioStep::Finish
            } else {
                AudioStep::ReadPacket
            },
            AudioEvent::ReadFailed | AudioEvent::Refused | AudioEvent::DecodeFailed => {
                AudioStep::Fail
            },
        }
    }
}

/// Whether the end was reached after the events `es`.
pub open spec fn ended_after(es: Seq<AudioEvent>) -> bool
    decreases es.len(),
{
    es.len() > 0 && (ended_after(es.drop_last()) || es.last() == AudioEvent::EndOfFile)
}

/// Reading ends only once the file has: when it finishes after the events
/// `es`, one of them was the end of the file, and every frame that the decoder
/// gave was appended.
pub proof fn reads_to_the_end(es: Seq<AudioEvent>)
    requires
        es.len() > 0,
    ensures
        audio_step(ended_after(es.drop_last()), es.last()) == AudioStep::Finish ==> es.contains(
            AudioEvent::EndOfFile,
        ),
        forall|ended: bool, e: AudioEvent|
            #![trigger audio_step(ended, e)]
            audio_step(ended, e) == AudioStep::Append <==> e == AudioEvent::FrameReady,
{
    if ended_after(es.drop_last()) {
        end_is_among(es.drop_last());
        let k = choose|k: int|
            0 <= k < es.drop_last().len() && es.drop_last()[k] == AudioEvent::EndOfFile;
        assert(es[k] == AudioEvent::EndOfFile);
    }
}

proof fn end_is_among(es: Seq<AudioEvent>)
    requires
        ended_after(es),
    ensures
        es.contains(AudioEvent::EndOfFile),
    decreases es.len(),
{
    if es.last() == AudioEvent::EndOfFile {
        assert(es[es.len() - 1] == AudioEvent::EndOfFile);
    } else {
        end_is_among(es.drop_last());
        let k = choose|k: int|
            0 <= k < es.drop_last().len() && es.drop_last()[k] == AudioEvent::EndOfFile;
        assert(es[k] == AudioEvent::EndOfFile);
    }
}

/// A planar frame is interleaved: sample `i` of channel `c` is the one at that
/// place of its plane, and comes after those of the channels before it.
pub proof fn planes_are_interleaved(
    t: SampleType,
    planes: Seq<Vec<u8>>,
    n: int,
    channels: int,
    i: int,
    c: int,
)
    requires
        readable(t),
        0 <= i < n,
        0 <= c < channels,
        planes.len() >= channels,
    ensures
        ({
            let out = frame_samples(t, SampleLayout::Planar, planes, n, channels);
            let at = i * sample_width(t);
            &&& out.len() == n * channels
            &&& 0 <= i * channels + c < n * channels
            &&& at + sample_width(t) <= planes[c]@.len() ==> out[i * channels + c] == sample_at(
                t,
                planes[c]@,
                at,
            )
            &&& at + sample_width(t) > planes[c]@.len() ==> out[i * channels + c]
                == RawSample::Silence
        }),
{
    let k = i * channels + c;
    vstd::arithmetic::div_mod::lemma_fundamental_div_mod_converse(k, channels, i, c);
    assert(i * channels + channels <= n * channels && 0 <= i * channels) by (nonlinear_arith)
        requires
            0 <= i,
            i + 1 <= n,
            channels >= 0,
    ;
}

/// A packed frame is read in order: every sample is the one right behind those
/// before it.
pub proof fn packed_samples_follow(t: SampleType, block: Vec<u8>, n: int, channels: int, k: int)
    requires
        readable(t),
        n > 0,
        0 <= k < n * channels,
        block@.len() >= n * channels * sample_width(t),
    ensures
        ({
            let out = frame_samples(t, SampleLayout::Packed, seq![block], n, channels);
            &&& out.len() == n * channels
            &&& out[k] == sample_at(t, block@, k * sample_width(t))
        }),
{
}

/// A single channel is the same packed and planar.
pub proof fn one_channel_has_one_layout(t: SampleType, block: Vec<u8>, n: int)
    requires
        readable(t),
        n > 0,
        block@.len() >= n * sample_width(t),
    ensures
        frame_samples(t, SampleLayout::Packed, seq![block], n, 1) == frame_samples(
            t,
            SampleLayout::Planar,
            seq![block],
            n,
            1,
        ),
{
    let w = sample_width(t);
    let a = frame_samples(t, SampleLayout::Packed, seq![block], n, 1);
    let b = frame_samples(t, SampleLayout::Planar, seq![block], n, 1);
    assert(n * 1 * w == n * w);
    assert forall|k: int| 0 <= k < n implies a[k] == b[k] by {
        vstd::arithmetic::div_mod::lemma_fundamental_div_mod_converse(k, 1, k, 0);
        assert(k * w + w <= n * w) by (nonlinear_arith)
            requires
                k + 1 <= n,
                w > 0,
        ;
    }
    assert(a =~= b);
}

/// Every number is read from the bytes that write it, lowest first: signed
/// ones from their two's complement, floating-point ones from their bits.
pub proof fn numbers_are_read_from_their_bytes(x: i16, y: i32, f: Scalar, d: u64)
    ensures
        sample_at(SampleType::I16, le_bytes(twos(x as int, 0x1_0000), 2), 0) == RawSample::I16(x),
        sample_at(SampleType::I32, le_bytes(twos(y as int, 0x1_0000_0000), 4), 0)
            == RawSample::I32(y),
        sample_at(SampleType::F32, le_bytes(f.bits as nat, 4), 0) == RawSample::F32(f),
        sample_at(SampleType::F64, le_bytes(d as nat, 8), 0) == RawSample::F64(d),
        sample_width(SampleType::I16) == 2,
        sample_width(SampleType::I32) == 4,
        sample_width(SampleType::F32) == 4,
        sample_width(SampleType::F64) == 8,
{
    reveal_with_fuel(byte_range, 9);
    let a = le_bytes(twos(x as int, 0x1_0000), 2);
    let b = le_bytes(twos(y as int, 0x1_0000_0000), 4);
    let c = le_bytes(f.bits as nat, 4);
    let e = le_bytes(d as nat, 8);
    le_bytes_len(twos(x as int, 0x1_0000), 2);
    le_bytes_len(twos(y as int, 0x1_0000_0000), 4);
    le_bytes_len(f.bits as nat, 4);
    le_bytes_len(d as nat, 8);
    assert(a.subrange(0, 2) =~= a);
    assert(b.subrange(0, 4) =~= b);
    assert(c.subrange(0, 4) =~= c);
    assert(e.subrange(0, 8) =~= e);
    le_round_trip(twos(x as int, 0x1_0000), 2, a, 0);
    le_round_trip(twos(y as int, 0x1_0000_0000), 4, b, 0);
    le_round_trip(f.bits as nat, 4, c, 0);
    le_round_trip(d as nat, 8, e, 0);
}

/// Each step of reading has its own causes: a packet is sent exactly if it is
/// of the stream, the decoder hears of the end exactly at the end of the file,
/// and every failure ends the reading.
pub proof fn reading_steps_have_causes(ended: bool, e: AudioEvent)
    ensures
        audio_step(ended, e) == AudioStep::SendPacket <==> e == AudioEvent::OwnPacket,
        audio_step(ended, e) == AudioStep::SendEnd <==> e == AudioEvent::EndOfFile,
        audio_step(ended, e) == AudioStep::Fail <==> e == AudioEvent::ReadFailed || e
            == AudioEvent::Refused || e == AudioEvent::DecodeFailed,
        audio_step(ended, e) == AudioStep::Receive <==> e == AudioEvent::Taken || e
            == AudioEvent::Appended,
        audio_step(ended, e) == AudioStep::Finish <==> e == AudioEvent::NoFrame && ended,
        audio_step(ended, e) == AudioStep::ReadPacket <==> e == AudioEvent::Start || e
            == AudioEvent::OtherPacket || (e == AudioEvent::NoFrame && !ended),
{
}

} // verus!
