//! WAV files: frames interleaved samples with a RIFF header.

use crate::bytes::{
    byte_range, le_bytes, le_bytes_len, le_round_trip, le_value, push_le, signed, twos,
};
use crate::media::samples::{frame_samples, RawSample, SampleLayout, SampleType};
use crate::model::time::wrap32;
use crate::scalar::Scalar;
use vstd::prelude::*;

verus! {

#[derive(Clone, Copy, Debug, PartialEq, Eq, Structural)]
pub enum WavBitDepth {
    Pcm16,
    Pcm24,
    Float32,
}

/// Bits per sample.
pub open spec fn depth_bits(d: WavBitDepth) -> u16 {
    match d {
        WavBitDepth::Pcm16 => 16,
        WavBitDepth::Pcm24 => 24,
        WavBitDepth::Float32 => 32,
    }
}

/// 1 for integer samples, 3 for floating-point ones.
pub open spec fn depth_tag(d: WavBitDepth) -> u16 {
    match d {
        WavBitDepth::Pcm16 => 1,
        WavBitDepth::Pcm24 => 1,
        WavBitDepth::Float32 => 3,
    }
}

impl WavBitDepth {
    pub fn bits(self) -> (r: u16)
        ensures
            r == depth_bits(self),
    {
        match self {
            WavBitDepth::Pcm16 => 16,
            WavBitDepth::Pcm24 => 24,
            WavBitDepth::Float32 => 32,
        }
    }

    /// 1 for integer samples, 3 for floating-point ones.
    pub fn format_tag(self) -> (r: u16)
        ensures
            r == depth_tag(self),
    {
        match self {
            WavBitDepth::Pcm16 | WavBitDepth::Pcm24 => 1,
            WavBitDepth::Float32 => 3,
        }
    }
}

/// Samples in the form in which a file stores them.
#[derive(Debug, PartialEq)]
pub enum WavSamples {
    Pcm16(Vec<i16>),
    /// Numbers of 24 bits; of a larger one the low 24 bits are stored.
    Pcm24(Vec<i32>),
    Float32(Vec<Scalar>),
}

/// The bit depth of `s`.
pub open spec fn samples_depth(s: WavSamples) -> WavBitDepth {
    match s {
        WavSamples::Pcm16(_) => WavBitDepth::Pcm16,
        WavSamples::Pcm24(_) => WavBitDepth::Pcm24,
        WavSamples::Float32(_) => WavBitDepth::Float32,
    }
}

/// The bytes of the first `n` numbers of `v`, each in `width` bytes.
pub open spec fn numbers_bytes(v: Seq<nat>, width: nat, n: nat) -> Seq<u8>
    decreases n,
{
    if n == 0 {
        Seq::empty()
    } else {
        numbers_bytes(v, width, (n - 1) as nat) + le_bytes(v[n - 1], width)
    }
}

/// The samples as unsigned numbers, in two's complement where they are signed.
pub open spec fn sample_numbers(s: WavSamples) -> Seq<nat> {
    match s {
        WavSamples::Pcm16(v) => v@.map_values(|x: i16| twos(x as int, 0x1_0000)),
        WavSamples::Pcm24(v) => v@.map_values(|x: i32| twos(x as int, 0x1_0000_0000)),
        WavSamples::Float32(v) => v@.map_values(|x: Scalar| x.bits as nat),
    }
}

/// Bytes per sample.
pub open spec fn depth_width(d: WavBitDepth) -> nat {
    (depth_bits(d) / 8) as nat
}

/// The data section of a file with the samples `s`.
pub open spec fn wav_data(s: WavSamples) -> Seq<u8> {
    numbers_bytes(sample_numbers(s), depth_width(samples_depth(s)), sample_numbers(s).len())
}

/// Bytes per frame, in 16 bits.
pub open spec fn block_align(d: WavBitDepth, channels: u16) -> int {
    (depth_width(d) * channels) % 0x1_0000
}

/// The header of a file with `data_len` bytes of data.
pub open spec fn wav_header(
    d: WavBitDepth,
    data_len: int,
    sample_rate: u32,
    channels: u16,
) -> Seq<u8> {
    let size = wrap32(data_len);
    let align = block_align(d, channels);
    seq![0x52u8, 0x49u8, 0x46u8, 0x46u8] + le_bytes((36 + size) as nat, 4) + seq![
        0x57u8,
        0x41u8,
        0x56u8,
        0x45u8,
    ] + seq![0x66u8, 0x6du8, 0x74u8, 0x20u8] + le_bytes(16, 4) + le_bytes(depth_tag(d) as nat, 2)
        + le_bytes(channels as nat, 2) + le_bytes(sample_rate as nat, 4) + le_bytes(
        (sample_rate * align) as nat,
        4,
    ) + le_bytes(align as nat, 2) + le_bytes(depth_bits(d) as nat, 2) + seq![
        0x64u8,
        0x61u8,
        0x74u8,
        0x61u8,
    ] + le_bytes(size as nat, 4)
}

/// A WAV file with the samples `s`.
pub open spec fn wav_file(s: WavSamples, sample_rate: u32, channels: u16) -> Seq<u8> {
    wav_header(samples_depth(s), wav_data(s).len() as int, sample_rate, channels) + wav_data(s)
}

proof fn numbers_bytes_len(v: Seq<nat>, width: nat, n: nat)
    requires
        n <= v.len(),
    ensures
        numbers_bytes(v, width, n).len() == n * width,
    decreases n,
{
    if n > 0 {
        numbers_bytes_len(v, width, (n - 1) as nat);
        le_bytes_len(v[n - 1], width);
        assert((n - 1) * width + width == n * width) by (nonlinear_arith);
    } else {
        assert(0 * width == 0) by (nonlinear_arith);
    }
}

proof fn numbers_bytes_part(v: Seq<nat>, width: nat, n: nat, k: int)
    requires
        n <= v.len(),
        0 <= k < n,
    ensures
        (k + 1) * width <= numbers_bytes(v, width, n).len(),
        0 <= k * width,
        numbers_bytes(v, width, n).subrange(k * width, k * width + width) == le_bytes(v[k], width),
    decreases n,
{
    let m = (n - 1) as nat;
    numbers_bytes_len(v, width, n);
    numbers_bytes_len(v, width, m);
    le_bytes_len(v[n - 1], width);
    assert((k + 1) * width <= n * width) by (nonlinear_arith)
        requires
            k + 1 <= n,
            width >= 0,
    ;
    assert((k + 1) * width == k * width + width && 0 <= k * width) by (nonlinear_arith)
        requires
            k >= 0,
            width >= 0,
    ;
    if k < m {
        numbers_bytes_part(v, width, m, k);
        assert((k + 1) * width <= m * width) by (nonlinear_arith)
            requires
                k + 1 <= m,
                width >= 0,
        ;
        assert(numbers_bytes(v, width, n).subrange(k * width, k * width + width)
            =~= numbers_bytes(v, width, m).subrange(k * width, k * width + width));
    } else {
        assert(numbers_bytes(v, width, n).subrange(k * width, k * width + width) =~= le_bytes(
            v[k],
            width,
        ));
    }
}

/// The header is 44 bytes long, so the data starts there.
pub proof fn header_is_44_bytes(d: WavBitDepth, data_len: int, sample_rate: u32, channels: u16)
    ensures
        wav_header(d, data_len, sample_rate, channels).len() == 44,
{
    let size = wrap32(data_len);
    let align = block_align(d, channels);
    le_bytes_len((36 + size) as nat, 4);
    le_bytes_len(16, 4);
    le_bytes_len(depth_tag(d) as nat, 2);
    le_bytes_len(channels as nat, 2);
    le_bytes_len(sample_rate as nat, 4);
    le_bytes_len((sample_rate * align) as nat, 4);
    le_bytes_len(align as nat, 2);
    le_bytes_len(depth_bits(d) as nat, 2);
    le_bytes_len(size as nat, 4);
}

/// 16-bit samples that were written to a file are read back from its data
/// section as they were.
pub proof fn pcm16_reads_back(v: Vec<i16>, block: Vec<u8>, n: int, channels: int)
    requires
        block@ == wav_data(WavSamples::Pcm16(v)),
        n > 0,
        channels >= 0,
        n * channels == v@.len(),
    ensures
        frame_samples(SampleType::I16, SampleLayout::Packed, seq![block], n, channels)
            == v@.map_values(|x: i16| RawSample::I16(x)),
{
    let s = WavSamples::Pcm16(v);
    let nums = sample_numbers(s);
    numbers_bytes_len(nums, 2, nums.len());
    let got = frame_samples(SampleType::I16, SampleLayout::Packed, seq![block], n, channels);
    let want = v@.map_values(|x: i16| RawSample::I16(x));
    assert forall|k: int| 0 <= k < v@.len() implies got[k] == want[k] by {
        numbers_bytes_part(nums, 2, nums.len(), k);
        reveal_with_fuel(byte_range, 3);
        le_round_trip(nums[k], 2, block@, k * 2);
    }
    assert(got =~= want);
}

proof fn low_three_bytes(x: nat)
    ensures
        le_bytes(x, 3) == le_bytes(x % 0x100_0000, 3),
{
    let y = x % 0x100_0000;
    let q = x / 0x100_0000;
    reveal_with_fuel(le_bytes, 4);
    assert(x == 0x100_0000 * q + y);
    assert(x / 256 == 0x1_0000 * q + y / 256);
    assert(x / 256 / 256 == 0x100 * q + y / 256 / 256);
    assert(le_bytes(x, 3) =~= le_bytes(y, 3));
}

/// A 24-bit sample that was written to a file is read back from its data
/// section, as a signed number in three bytes, as it was.
pub proof fn pcm24_reads_back(v: Vec<i32>, k: int)
    requires
        0 <= k < v@.len(),
        -0x80_0000 <= v@[k] < 0x80_0000,
    ensures
        3 * k + 3 <= wav_data(WavSamples::Pcm24(v)).len(),
        signed(le_value(wav_data(WavSamples::Pcm24(v)), 3 * k, 3), 0x100_0000) == v@[k],
{
    let s = WavSamples::Pcm24(v);
    let nums = sample_numbers(s);
    let x = nums[k];
    numbers_bytes_part(nums, 3, nums.len(), k);
    assert(k * 3 == 3 * k);
    low_three_bytes(x);
    assert(x % 0x100_0000 == twos(v@[k] as int, 0x100_0000));
    reveal_with_fuel(byte_range, 4);
    le_round_trip(x % 0x100_0000, 3, wav_data(s), 3 * k);
}

/// Floating-point samples that were written to a file are read back from its
/// data section as they were.
pub proof fn float32_reads_back(v: Vec<Scalar>, block: Vec<u8>, n: int, channels: int)
    requires
        block@ == wav_data(WavSamples::Float32(v)),
        n > 0,
        channels >= 0,
        n * channels == v@.len(),
    ensures
        frame_samples(SampleType::F32, SampleLayout::Packed, seq![block], n, channels)
            == v@.map_values(|x: Scalar| RawSample::F32(x)),
{
    let s = WavSamples::Float32(v);
    let nums = sample_numbers(s);
    numbers_bytes_len(nums, 4, nums.len());
    let got = frame_samples(SampleType::F32, SampleLayout::Packed, seq![block], n, channels);
    let want = v@.map_values(|x: Scalar| RawSample::F32(x));
    assert forall|k: int| 0 <= k < v@.len() implies got[k] == want[k] by {
        numbers_bytes_part(nums, 4, nums.len(), k);
        reveal_with_fuel(byte_range, 5);
        le_round_trip(nums[k], 4, block@, k * 4);
    }
    assert(got =~= want);
}

fn push4(out: &mut Vec<u8>, a: u8, b: u8, c: u8, d: u8)
    ensures
        final(out)@ == old(out)@ + seq![a, b, c, d],
{
    out.push(a);
    out.push(b);
    out.push(c);
    out.push(d);
    assert(out@ =~= old(out)@ + seq![a, b, c, d]);
}

impl WavSamples {
    pub fn depth(&self) -> (r: WavBitDepth)
        ensures
            r == samples_depth(*self),
    {
        match self {
            WavSamples::Pcm16(_) => WavBitDepth::Pcm16,
            WavSamples::Pcm24(_) => WavBitDepth::Pcm24,
            WavSamples::Float32(_) => WavBitDepth::Float32,
        }
    }

    fn count(&self) -> (r: usize)
        ensures
            r == sample_numbers(*self).len(),
    {
        match self {
            WavSamples::Pcm16(v) => v.len(),
            WavSamples::Pcm24(v) => v.len(),
            WavSamples::Float32(v) => v.len(),
        }
    }

    fn number(&self, i: usize) -> (r: u64)
        requires
            i < sample_numbers(*self).len(),
        ensures
            r == sample_numbers(*self)[i as int],
    {
        match self {
            WavSamples::Pcm16(v) => {
                let x: i64 = v[i] as i64;
                if x < 0 {
                    (x + 0x1_0000) as u64
                } else {
                    x as u64
                }
            },
            WavSamples::Pcm24(v) => {
                let x: i64 = v[i] as i64;
                if x < 0 {
                    (x + 0x1_0000_0000) as u64
                } else {
                    x as u64
                }
            },
            WavSamples::Float32(v) => v[i].bits as u64,
        }
    }

    /// The data section of a file with these samples.
    pub fn data(&self) -> (r: Vec<u8>)
        ensures
            r@ == wav_data(*self),
    {
        let width: usize = (self.depth().bits() / 8) as usize;
        let n: usize = self.count();
        let mut out: Vec<u8> = Vec::new();
        let mut i: usize = 0;
        while i < n
            invariant
                i <= n,
                n == sample_numbers(*self).len(),
                width == depth_width(samples_depth(*self)),
                out@ == numbers_bytes(sample_numbers(*self), width as nat, i as nat),
            decreases n - i,
        {
            push_le(&mut out, self.number(i), width);
            i = i + 1;
        }
        out
    }
}

/// The bytes of a WAV file with the interleaved samples `s`.
pub fn write_wav(s: &WavSamples, sample_rate: u32, channels: u16) -> (r: Vec<u8>)
    requires
        36 + wrap32(wav_data(*s).len() as int) <= u32::MAX,
        sample_rate * block_align(samples_depth(*s), channels) <= u32::MAX,
    ensures
        r@ == wav_file(*s, sample_rate, channels),
{
    let depth = s.depth();
    let data = s.data();
    let size: u64 = (data.len() as u64) % 0x1_0000_0000;
    let width: u64 = (depth.bits() / 8) as u64;
    proof {
        assert(0 <= width * channels <= 4 * 0xffff) by (nonlinear_arith)
            requires
                0 <= width <= 4,
                0 <= channels <= 0xffff,
        ;
    }
    let align: u64 = (width * channels as u64) % 0x1_0000;
    let mut out: Vec<u8> = Vec::new();
    push4(&mut out, 0x52, 0x49, 0x46, 0x46);
    push_le(&mut out, 36 + size, 4);
    push4(&mut out, 0x57, 0x41, 0x56, 0x45);
    push4(&mut out, 0x66, 0x6d, 0x74, 0x20);
    push_le(&mut out, 16, 4);
    push_le(&mut out, depth.format_tag() as u64, 2);
    push_le(&mut out, channels as u64, 2);
    push_le(&mut out, sample_rate as u64, 4);
    proof {
        assert(sample_rate * align >= 0) by (nonlinear_arith)
            requires
                sample_rate >= 0,
                align >= 0,
        ;
    }
    push_le(&mut out, sample_rate as u64 * align, 4);
    push_le(&mut out, align, 2);
    push_le(&mut out, depth.bits() as u64, 2);
    push4(&mut out, 0x64, 0x61, 0x74, 0x61);
    push_le(&mut out, size, 4);
    assert(out@ =~= wav_header(depth, data@.len() as int, sample_rate, channels));
    let mut i: usize = 0;
    let ghost header = out@;
    while i < data.len()
        invariant
            i <= data.len(),
            out@ == header + data@.take(i as int),
        decreases data.len() - i,
    {
        out.push(data[i]);
        i = i + 1;
        assert(out@ =~= header + data@.take(i as int));
    }
    assert(data@.take(i as int) =~= data@);
    out
}

proof fn header_parts(
    d: WavBitDepth,
    data_len: int,
    sample_rate: u32,
    channels: u16,
    at: int,
    x: nat,
    n: nat,
)
    requires
        0 <= at,
        at + n <= 44,
        x < byte_range(n),
        wav_header(d, data_len, sample_rate, channels).subrange(at, at + n) == le_bytes(x, n),
    ensures
        le_value(wav_header(d, data_len, sample_rate, channels), at, n) == x,
{
    header_is_44_bytes(d, data_len, sample_rate, channels);
    le_round_trip(x, n, wav_header(d, data_len, sample_rate, channels), at);
}

/// What stands in the header, read from its bytes: the size of what follows,
/// the form of the samples, the channels, the rates, the size of a frame, the
/// bits of a sample and the size of the data. The second of sound takes as
/// many bytes as its frames.
pub proof fn header_reads_back(d: WavBitDepth, data_len: int, sample_rate: u32, channels: u16)
    requires
        0 <= data_len <= u32::MAX - 36,
        sample_rate * block_align(d, channels) <= u32::MAX,
    ensures
        ({
            let h = wav_header(d, data_len, sample_rate, channels);
            &&& le_value(h, 4, 4) == 36 + data_len
            &&& le_value(h, 16, 4) == 16
            &&& le_value(h, 20, 2) == if d == WavBitDepth::Float32 {
                3nat
            } else {
                1nat
            }
            &&& le_value(h, 22, 2) == channels
            &&& le_value(h, 24, 4) == sample_rate
            &&& le_value(h, 28, 4) == sample_rate * le_value(h, 32, 2)
            &&& 8 * le_value(h, 32, 2) == (le_value(h, 34, 2) * channels) % 0x8_0000
            &&& le_value(h, 34, 2) == depth_bits(d)
            &&& le_value(h, 40, 4) == data_len
        }),
{
    let h = wav_header(d, data_len, sample_rate, channels);
    let align = block_align(d, channels);
    let total = sample_rate * align;
    header_is_44_bytes(d, data_len, sample_rate, channels);
    reveal_with_fuel(byte_range, 5);
    assert(0 <= total) by (nonlinear_arith)
        requires
            total == sample_rate * align,
            sample_rate >= 0,
            align >= 0,
    ;
    le_bytes_len((36 + data_len) as nat, 4);
    le_bytes_len(16, 4);
    le_bytes_len(depth_tag(d) as nat, 2);
    le_bytes_len(channels as nat, 2);
    le_bytes_len(sample_rate as nat, 4);
    le_bytes_len(total as nat, 4);
    le_bytes_len(align as nat, 2);
    le_bytes_len(depth_bits(d) as nat, 2);
    le_bytes_len(data_len as nat, 4);
    assert(h.subrange(4, 8) =~= le_bytes((36 + data_len) as nat, 4));
    header_parts(d, data_len, sample_rate, channels, 4, (36 + data_len) as nat, 4);
    assert(h.subrange(16, 20) =~= le_bytes(16, 4));
    header_parts(d, data_len, sample_rate, channels, 16, 16, 4);
    assert(h.subrange(20, 22) =~= le_bytes(depth_tag(d) as nat, 2));
    header_parts(d, data_len, sample_rate, channels, 20, depth_tag(d) as nat, 2);
    assert(h.subrange(22, 24) =~= le_bytes(channels as nat, 2));
    header_parts(d, data_len, sample_rate, channels, 22, channels as nat, 2);
    assert(h.subrange(24, 28) =~= le_bytes(sample_rate as nat, 4));
    header_parts(d, data_len, sample_rate, channels, 24, sample_rate as nat, 4);
    assert(h.subrange(28, 32) =~= le_bytes(total as nat, 4));
    header_parts(d, data_len, sample_rate, channels, 28, total as nat, 4);
    assert(h.subrange(32, 34) =~= le_bytes(align as nat, 2));
    header_parts(d, data_len, sample_rate, channels, 32, align as nat, 2);
    assert(h.subrange(34, 36) =~= le_bytes(depth_bits(d) as nat, 2));
    header_parts(d, data_len, sample_rate, channels, 34, depth_bits(d) as nat, 2);
    assert(h.subrange(40, 44) =~= le_bytes(data_len as nat, 4));
    header_parts(d, data_len, sample_rate, channels, 40, data_len as nat, 4);
    assert(8 * align == (depth_bits(d) * channels) % 0x8_0000) by {
        let w = depth_width(d) as int;
        let c = channels as int;
        let x = w * c;
        assert(depth_bits(d) == 8 * w);
        assert((8 * w) * c == 8 * x) by (nonlinear_arith)
            requires
                x == w * c,
        ;
        assert((8 * x) % 0x8_0000 == 8 * (x % 0x1_0000));
    }
}

/// The marks of a WAV file stand where a reader looks for them.
pub proof fn header_is_marked(d: WavBitDepth, data_len: int, sample_rate: u32, channels: u16)
    ensures
        ({
            let h = wav_header(d, data_len, sample_rate, channels);
            &&& h.subrange(0, 4) == seq![0x52u8, 0x49u8, 0x46u8, 0x46u8]
            &&& h.subrange(8, 16) == seq![
                0x57u8,
                0x41u8,
                0x56u8,
                0x45u8,
                0x66u8,
                0x6du8,
                0x74u8,
                0x20u8,
            ]
            &&& h.subrange(36, 40) == seq![0x64u8, 0x61u8, 0x74u8, 0x61u8]
        }),
{
    let h = wav_header(d, data_len, sample_rate, channels);
    let size = wrap32(data_len);
    let align = block_align(d, channels);
    header_is_44_bytes(d, data_len, sample_rate, channels);
    le_bytes_len((36 + size) as nat, 4);
    le_bytes_len(16, 4);
    le_bytes_len(depth_tag(d) as nat, 2);
    le_bytes_len(channels as nat, 2);
    le_bytes_len(sample_rate as nat, 4);
    le_bytes_len((sample_rate * align) as nat, 4);
    le_bytes_len(align as nat, 2);
    le_bytes_len(depth_bits(d) as nat, 2);
    assert(h.subrange(0, 4) =~= seq![0x52u8, 0x49u8, 0x46u8, 0x46u8]);
    assert(h.subrange(8, 16) =~= seq![
        0x57u8,
        0x41u8,
        0x56u8,
        0x45u8,
        0x66u8,
        0x6du8,
        0x74u8,
        0x20u8,
    ]);
    assert(h.subrange(36, 40) =~= seq![0x64u8, 0x61u8, 0x74u8, 0x61u8]);
}

/// The data is behind the header and takes, for each sample, the bytes of its
/// bits.
pub proof fn data_follows_the_header(s: WavSamples, sample_rate: u32, channels: u16)
    ensures
        wav_file(s, sample_rate, channels).skip(44) == wav_data(s),
        8 * wav_data(s).len() == sample_numbers(s).len() * depth_bits(samples_depth(s)),
        s is Pcm16 ==> depth_bits(samples_depth(s)) == 16 && sample_numbers(s).len()
            == s->Pcm16_0@.len(),
        s is Pcm24 ==> depth_bits(samples_depth(s)) == 24 && sample_numbers(s).len()
            == s->Pcm24_0@.len(),
        s is Float32 ==> depth_bits(samples_depth(s)) == 32 && sample_numbers(s).len()
            == s->Float32_0@.len(),
{
    let d = samples_depth(s);
    let v = sample_numbers(s);
    header_is_44_bytes(d, wav_data(s).len() as int, sample_rate, channels);
    numbers_bytes_len(v, depth_width(d), v.len());
    assert(wav_file(s, sample_rate, channels).skip(44) =~= wav_data(s));
    let w = depth_width(d);
    assert(8 * (v.len() * w) == v.len() * (8 * w)) by (nonlinear_arith);
}

} // verus!
