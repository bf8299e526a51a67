//! Encoding plans: options, the encoder to open and its settings, and how
//! frames go in.
//!
//! Codecs are H.264, H.265 and ProRes 422 / 4444; rate control is by quality
//! or by bitrate; hardware encoders fall back to software.

use crate::media::decode::packed_rows;
use crate::media::error::DecodeError;
use crate::text::{decimal, decimal_round_trip, decimal_text, str_eq, unsigned_value};
use vstd::prelude::*;

verus! {

#[derive(Clone, Copy, Debug, PartialEq, Eq, Structural)]
pub enum VideoCodec {
    H264,
    H265,
    /// ProRes 422 (proxy, LT, standard or HQ by profile).
    Prores422,
    /// ProRes 4444: higher bit depth and alpha.
    Prores4444,
}

/// The name of `codec`.
pub open spec fn codec_label(codec: VideoCodec) -> Seq<char> {
    match codec {
        VideoCodec::H264 => "h264"@,
        VideoCodec::H265 => "h265"@,
        VideoCodec::Prores422 => "prores422"@,
        VideoCodec::Prores4444 => "prores4444"@,
    }
}

impl VideoCodec {
    pub fn label(self) -> (r: &'static str)
        ensures
            r@ == codec_label(self),
    {
        match self {
            VideoCodec::H264 => "h264",
            VideoCodec::H265 => "h265",
            VideoCodec::Prores422 => "prores422",
            VideoCodec::Prores4444 => "prores4444",
        }
    }
}

#[derive(Clone, Copy, Debug, PartialEq, Eq, Structural)]
pub enum RateControl {
    /// Constant rate factor: a target of perceptual quality.
    Crf,
    /// Constant bitrate.
    Cbr,
    /// Variable bitrate with a target.
    Vbr,
}

#[derive(Clone, Copy, Debug, PartialEq, Eq, Structural)]
pub enum HwEncoder {
    Software,
    Nvenc,
    Vaapi,
    VideoToolbox,
}

impl Default for HwEncoder {
    fn default() -> (r: Self)
        ensures
            r == HwEncoder::Software,
    {
        HwEncoder::Software
    }
}

/// The name of `hw`.
pub open spec fn hw_label(hw: HwEncoder) -> Seq<char> {
    match hw {
        HwEncoder::Software => "software"@,
        HwEncoder::Nvenc => "nvenc"@,
        HwEncoder::Vaapi => "vaapi"@,
        HwEncoder::VideoToolbox => "videotoolbox"@,
    }
}

impl HwEncoder {
    pub fn label(self) -> (r: &'static str)
        ensures
            r@ == hw_label(self),
    {
        match self {
            HwEncoder::Software => "software",
            HwEncoder::Nvenc => "nvenc",
            HwEncoder::Vaapi => "vaapi",
            HwEncoder::VideoToolbox => "videotoolbox",
        }
    }
}

#[derive(Debug, PartialEq, Eq)]
pub struct EncodeOptions {
    pub codec: VideoCodec,
    pub width: u32,
    pub height: u32,
    pub framerate: (u32, u32),
    pub rate_control: RateControl,
    /// Quality when the rate is controlled by it: 18 is visually lossless, 28
    /// lower quality.
    pub crf: u32,
    /// Target bitrate in bits per second.
    pub target_bitrate: u64,
    /// Maximum bitrate; 0 is unset.
    pub max_bitrate: u64,
    /// Encoder preset, passed to the encoder as it is.
    pub preset: String,
    /// Encoder profile, passed to the encoder as it is.
    pub profile: String,
    pub pixel_format: String,
    /// Keyframe interval in frames; 0 is the encoder's default.
    pub keyframe_interval: u32,
    pub hw: HwEncoder,
}

/// What encode options hold.
#[verifier::ext_equal]
pub struct EncodeModel {
    pub codec: VideoCodec,
    pub width: u32,
    pub height: u32,
    pub framerate: (u32, u32),
    pub rate_control: RateControl,
    pub crf: u32,
    pub target_bitrate: u64,
    pub max_bitrate: u64,
    pub preset: Seq<char>,
    pub profile: Seq<char>,
    pub pixel_format: Seq<char>,
    pub keyframe_interval: u32,
    pub hw: HwEncoder,
}

impl View for EncodeOptions {
    type V = EncodeModel;

    open spec fn view(&self) -> EncodeModel {
        EncodeModel {
            codec: self.codec,
            width: self.width,
            height: self.height,
            framerate: self.framerate,
            rate_control: self.rate_control,
            crf: self.crf,
            target_bitrate: self.target_bitrate,
            max_bitrate: self.max_bitrate,
            preset: self.preset@,
            profile: self.profile@,
            pixel_format: self.pixel_format@,
            keyframe_interval: self.keyframe_interval,
            hw: self.hw,
        }
    }
}

/// A framerate with a denominator of at least 1.
pub open spec fn proper_rate(num: u32, den: u32) -> (u32, u32) {
    (
        num,
        if den == 0 {
            1
        } else {
            den
        },
    )
}

/// High-quality H.264.
pub open spec fn h264_options(width: u32, height: u32, num: u32, den: u32) -> EncodeModel {
    EncodeModel {
        codec: VideoCodec::H264,
        width,
        height,
        framerate: proper_rate(num, den),
        rate_control: RateControl::Crf,
        crf: 18,
        target_bitrate: 0,
        max_bitrate: 0,
        preset: "medium"@,
        profile: "high"@,
        pixel_format: "yuv420p"@,
        keyframe_interval: 0,
        hw: HwEncoder::Software,
    }
}

/// H.265 with the options of H.264.
pub open spec fn h265_options(width: u32, height: u32, num: u32, den: u32) -> EncodeModel {
    EncodeModel { codec: VideoCodec::H265, ..h264_options(width, height, num, den) }
}

/// ProRes 422, standard profile, every frame a keyframe.
pub open spec fn prores422_options(width: u32, height: u32, num: u32, den: u32) -> EncodeModel {
    EncodeModel {
        codec: VideoCodec::Prores422,
        width,
        height,
        framerate: proper_rate(num, den),
        rate_control: RateControl::Vbr,
        crf: 0,
        target_bitrate: 0,
        max_bitrate: 0,
        preset: Seq::empty(),
        profile: "standard"@,
        pixel_format: "yuv422p10le"@,
        keyframe_interval: 1,
        hw: HwEncoder::Software,
    }
}

/// ProRes 4444.
pub open spec fn prores4444_options(width: u32, height: u32, num: u32, den: u32) -> EncodeModel {
    EncodeModel {
        codec: VideoCodec::Prores4444,
        pixel_format: "yuva444p10le"@,
        profile: "4444"@,
        ..prores422_options(width, height, num, den)
    }
}

fn at_least_one(x: u32) -> (r: u32)
    ensures
        r == if x == 0 {
            1
        } else {
            x
        },
{
    if x == 0 {
        1
    } else {
        x
    }
}

impl EncodeOptions {
    pub fn h264_default(width: u32, height: u32, fps_num: u32, fps_den: u32) -> (r: Self)
        ensures
            r@ == h264_options(width, height, fps_num, fps_den),
    {
        EncodeOptions {
            codec: VideoCodec::H264,
            width,
            height,
            framerate: (fps_num, at_least_one(fps_den)),
            rate_control: RateControl::Crf,
            crf: 18,
            target_bitrate: 0,
            max_bitrate: 0,
            preset: "medium".to_owned(),
            profile: "high".to_owned(),
            pixel_format: "yuv420p".to_owned(),
            keyframe_interval: 0,
            hw: HwEncoder::Software,
        }
    }

    pub fn h265_default(width: u32, height: u32, fps_num: u32, fps_den: u32) -> (r: Self)
        ensures
            r@ == h265_options(width, height, fps_num, fps_den),
    {
        let mut o = EncodeOptions::h264_default(width, height, fps_num, fps_den);
        o.codec = VideoCodec::H265;
        o
    }

    /// ProRes 422, standard profile.
    pub fn prores422_default(width: u32, height: u32, fps_num: u32, fps_den: u32) -> (r: Self)
        ensures
            r@ == prores422_options(width, height, fps_num, fps_den),
    {
        let none = String::new();
        assert(none@ =~= Seq::<char>::empty());
        EncodeOptions {
            codec: VideoCodec::Prores422,
            width,
            height,
            framerate: (fps_num, at_least_one(fps_den)),
            rate_control: RateControl::Vbr,
            crf: 0,
            target_bitrate: 0,
            max_bitrate: 0,
            preset: none,
            profile: "standard".to_owned(),
            pixel_format: "yuv422p10le".to_owned(),
            keyframe_interval: 1,
            hw: HwEncoder::Software,
        }
    }

    pub fn prores4444_default(width: u32, height: u32, fps_num: u32, fps_den: u32) -> (r: Self)
        ensures
            r@ == prores4444_options(width, height, fps_num, fps_den),
    {
        let mut o = EncodeOptions::prores422_default(width, height, fps_num, fps_den);
        o.codec = VideoCodec::Prores4444;
        o.pixel_format = "yuva444p10le".to_owned();
        o.profile = "4444".to_owned();
        o
    }

    /// Fast options for tests.
    pub fn h264_test(width: u32, height: u32, fps_num: u32, fps_den: u32) -> (r: Self)
        ensures
            r@ == (EncodeModel {
                crf: 23,
                preset: "ultrafast"@,
                ..h264_options(width, height, fps_num, fps_den)
            }),
    {
        let mut o = EncodeOptions::h264_default(width, height, fps_num, fps_den);
        o.crf = 23;
        o.preset = "ultrafast".to_owned();
        o
    }
}

/// Codec families.
#[derive(Clone, Copy, Debug, PartialEq, Eq, Structural)]
pub enum CodecId {
    H264,
    Hevc,
    Prores,
}

/// The family of `codec`.
pub open spec fn codec_family(codec: VideoCodec) -> CodecId {
    match codec {
        VideoCodec::H264 => CodecId::H264,
        VideoCodec::H265 => CodecId::Hevc,
        VideoCodec::Prores422 => CodecId::Prores,
        VideoCodec::Prores4444 => CodecId::Prores,
    }
}

/// The family of the codec in `opts`.
pub fn codec_id_for(opts: &EncodeOptions) -> (r: CodecId)
    ensures
        r == codec_family(opts@.codec),
{
    match opts.codec {
        VideoCodec::H264 => CodecId::H264,
        VideoCodec::H265 => CodecId::Hevc,
        VideoCodec::Prores422 | VideoCodec::Prores4444 => CodecId::Prores,
    }
}

/// The hardware encoder that was asked for. ProRes has none.
pub open spec fn encoder_name(codec: VideoCodec, hw: HwEncoder) -> Option<Seq<char>> {
    match (codec, hw) {
        (VideoCodec::H264, HwEncoder::Nvenc) => Some("h264_nvenc"@),
        (VideoCodec::H264, HwEncoder::Vaapi) => Some("h264_vaapi"@),
        (VideoCodec::H264, HwEncoder::VideoToolbox) => Some("h264_videotoolbox"@),
        (VideoCodec::H265, HwEncoder::Nvenc) => Some("hevc_nvenc"@),
        (VideoCodec::H265, HwEncoder::Vaapi) => Some("hevc_vaapi"@),
        (VideoCodec::H265, HwEncoder::VideoToolbox) => Some("hevc_videotoolbox"@),
        _ => None,
    }
}

/// The hardware encoder that `opts` asks for.
pub fn encoder_name_for(opts: &EncodeOptions) -> (r: Option<&'static str>)
    ensures
        match encoder_name(opts@.codec, opts@.hw) {
            Some(name) => r is Some && r->0@ == name,
            None => r is None,
        },
{
    match (opts.codec, opts.hw) {
        (VideoCodec::H264, HwEncoder::Nvenc) => Some("h264_nvenc"),
        (VideoCodec::H264, HwEncoder::Vaapi) => Some("h264_vaapi"),
        (VideoCodec::H264, HwEncoder::VideoToolbox) => Some("h264_videotoolbox"),
        (VideoCodec::H265, HwEncoder::Nvenc) => Some("hevc_nvenc"),
        (VideoCodec::H265, HwEncoder::Vaapi) => Some("hevc_vaapi"),
        (VideoCodec::H265, HwEncoder::VideoToolbox) => Some("hevc_videotoolbox"),
        _ => None,
    }
}

/// Which encoder to open.
#[derive(Clone, Copy, Debug, PartialEq, Eq, Structural)]
pub enum EncoderChoice {
    /// The one that was asked for by name.
    Named,
    /// The default one of the codec's family.
    FamilyDefault,
}

/// Which encoder to open, given which of them the machine has: the named one
/// if it was asked for and is there, else the default one of the family.
pub fn choose_encoder(
    opts: &EncodeOptions,
    named_available: bool,
    default_available: bool,
) -> (r: Result<EncoderChoice, DecodeError>)
    ensures
        if encoder_name(opts@.codec, opts@.hw) is Some && named_available {
            r == Ok::<EncoderChoice, DecodeError>(EncoderChoice::Named)
        } else if default_available {
            r == Ok::<EncoderChoice, DecodeError>(EncoderChoice::FamilyDefault)
        } else {
            r matches Err(DecodeError::UnsupportedCodec(c)) && c@ == codec_label(opts@.codec)
        },
{
    if encoder_name_for(opts).is_some() && named_available {
        Ok(EncoderChoice::Named)
    } else if default_available {
        Ok(EncoderChoice::FamilyDefault)
    } else {
        Err(DecodeError::UnsupportedCodec(opts.codec.label().to_owned()))
    }
}

/// Pixel formats that can be encoded.
#[derive(Clone, Copy, Debug, PartialEq, Eq, Structural)]
pub enum PixelFormat {
    Yuv420p,
    Yuv422p,
    Yuv444p,
    Yuv422p10le,
    Yuv444p10le,
    Yuva444p10le,
}

/// The pixel format called `name`, if there is one.
pub open spec fn known_pixel_format(name: Seq<char>) -> Option<PixelFormat> {
    if name == "yuv420p"@ {
        Some(PixelFormat::Yuv420p)
    } else if name == "yuv422p"@ {
        Some(PixelFormat::Yuv422p)
    } else if name == "yuv444p"@ {
        Some(PixelFormat::Yuv444p)
    } else if name == "yuv422p10le"@ {
        Some(PixelFormat::Yuv422p10le)
    } else if name == "yuv444p10le"@ {
        Some(PixelFormat::Yuv444p10le)
    } else if name == "yuva444p10le"@ {
        Some(PixelFormat::Yuva444p10le)
    } else {
        None
    }
}

/// The pixel format called `name`; 4:2:0 for a name that is not known.
pub fn pixel_format_id(name: &str) -> (r: PixelFormat)
    ensures
        r == match known_pixel_format(name@) {
            Some(f) => f,
            None => PixelFormat::Yuv420p,
        },
{
    if str_eq(name, "yuv420p") {
        PixelFormat::Yuv420p
    } else if str_eq(name, "yuv422p") {
        PixelFormat::Yuv422p
    } else if str_eq(name, "yuv444p") {
        PixelFormat::Yuv444p
    } else if str_eq(name, "yuv422p10le") {
        PixelFormat::Yuv422p10le
    } else if str_eq(name, "yuv444p10le") {
        PixelFormat::Yuv444p10le
    } else if str_eq(name, "yuva444p10le") {
        PixelFormat::Yuva444p10le
    } else {
        PixelFormat::Yuv420p
    }
}

/// How an encoder is set up before it is opened.
#[derive(Debug, PartialEq, Eq)]
pub struct EncoderSetup {
    pub width: u32,
    pub height: u32,
    pub pixel_format: PixelFormat,
    /// Seconds per frame.
    pub time_base: (i32, i32),
    /// Frames per second.
    pub frame_rate: (i32, i32),
    pub bit_rate: Option<u64>,
    pub max_bit_rate: Option<u64>,
    pub gop: Option<u32>,
    /// Options by name, in order.
    pub options: Vec<(String, String)>,
}

/// Options by name, as they are handed to the encoder: preset and profile
/// where they are given, the quality or the kind of rate control, and no
/// bidirectional frames, which keeps frames in step with the input.
pub open spec fn encoder_options(o: EncodeModel) -> Seq<(Seq<char>, Seq<char>)> {
    let preset = if o.preset.len() == 0 {
        Seq::empty()
    } else {
        seq![("preset"@, o.preset)]
    };
    let profile = if o.profile.len() == 0 {
        Seq::empty()
    } else {
        seq![("profile"@, o.profile)]
    };
    let rate = match o.rate_control {
        RateControl::Crf => seq![("crf"@, decimal(o.crf as nat))],
        RateControl::Cbr => if o.hw == HwEncoder::Nvenc {
            seq![("rc"@, "cbr"@)]
        } else {
            Seq::empty()
        },
        RateControl::Vbr => if o.hw == HwEncoder::Nvenc {
            seq![("rc"@, "vbr"@)]
        } else {
            Seq::empty()
        },
    };
    preset + profile + rate + seq![("bf"@, "0"@)]
}

/// `x` if it is set.
pub open spec fn if_set(x: u64) -> Option<u64> {
    if x > 0 {
        Some(x)
    } else {
        None
    }
}

/// `x` in 32 bits, as a signed number.
pub open spec fn signed32(x: u32) -> int {
    if x > i32::MAX {
        x - 0x1_0000_0000
    } else {
        x as int
    }
}

fn as_signed(x: u32) -> (r: i32)
    ensures
        r == signed32(x),
{
    if x > 0x7fff_ffff {
        (x as i64 - 0x1_0000_0000) as i32
    } else {
        x as i32
    }
}

/// The texts of `pairs`.
pub open spec fn pair_texts(pairs: Seq<(String, String)>) -> Seq<(Seq<char>, Seq<char>)> {
    pairs.map_values(|p: (String, String)| (p.0@, p.1@))
}

fn push_option(options: &mut Vec<(String, String)>, name: &str, value: &str)
    ensures
        pair_texts(final(options)@) == pair_texts(old(options)@).push((name@, value@)),
{
    options.push((name.to_owned(), value.to_owned()));
    assert(pair_texts(options@) =~= pair_texts(old(options)@).push((name@, value@)));
}

/// How the encoder for `opts` is set up.
pub fn encoder_setup(opts: &EncodeOptions) -> (r: EncoderSetup)
    ensures
        r.width == opts@.width,
        r.height == opts@.height,
        r.pixel_format == match known_pixel_format(opts@.pixel_format) {
            Some(f) => f,
            None => PixelFormat::Yuv420p,
        },
        r.time_base.0 == signed32(opts@.framerate.1),
        r.time_base.1 == signed32(opts@.framerate.0),
        r.frame_rate.0 == signed32(opts@.framerate.0),
        r.frame_rate.1 == signed32(opts@.framerate.1),
        r.bit_rate == if_set(opts@.target_bitrate),
        r.max_bit_rate == if_set(opts@.max_bitrate),
        r.gop == if opts@.keyframe_interval > 0 {
            Some(opts@.keyframe_interval)
        } else {
            None
        },
        pair_texts(r.options@) == encoder_options(opts@),
        is_setup(opts@, r),
{
    proof {
        reveal_strlit("");
    }
    let mut options: Vec<(String, String)> = Vec::new();
    assert(pair_texts(options@) =~= Seq::empty());
    if !str_eq(&opts.preset, "") {
        push_option(&mut options, "preset", &opts.preset);
    }
    if !str_eq(&opts.profile, "") {
        push_option(&mut options, "profile", &opts.profile);
    }
    match opts.rate_control {
        RateControl::Crf => {
            let crf = decimal_text(opts.crf as u64);
            push_option(&mut options, "crf", &crf);
        },
        RateControl::Cbr => {
            if opts.hw == HwEncoder::Nvenc {
                push_option(&mut options, "rc", "cbr");
            }
        },
        RateControl::Vbr => {
            if opts.hw == HwEncoder::Nvenc {
                push_option(&mut options, "rc", "vbr");
            }
        },
    }
    push_option(&mut options, "bf", "0");
    proof {
        let o = opts@;
        if o.preset.len() == 0 {
            assert(o.preset =~= ""@);
        }
        if o.profile.len() == 0 {
            assert(o.profile =~= ""@);
        }
        assert(pair_texts(options@) =~= encoder_options(o));
    }
    EncoderSetup {
        width: opts.width,
        height: opts.height,
        pixel_format: pixel_format_id(&opts.pixel_format),
        time_base: (as_signed(opts.framerate.1), as_signed(opts.framerate.0)),
        frame_rate: (as_signed(opts.framerate.0), as_signed(opts.framerate.1)),
        bit_rate: if opts.target_bitrate > 0 {
            Some(opts.target_bitrate)
        } else {
            None
        },
        max_bit_rate: if opts.max_bitrate > 0 {
            Some(opts.max_bitrate)
        } else {
            None
        },
        gop: if opts.keyframe_interval > 0 {
            Some(opts.keyframe_interval)
        } else {
            None
        },
        options,
    }
}

/// Where an open encoder stands.
#[derive(Clone, Copy, Debug, PartialEq, Eq, Structural)]
pub struct EncoderProgress {
    pub width: u32,
    pub height: u32,
    /// Frames scaled so far.
    pub frame_count: i64,
    pub finished: bool,
}

/// What to do with a frame.
#[derive(Clone, Copy, Debug, PartialEq, Eq, Structural)]
pub enum FrameVerdict {
    /// Nothing: the file is already finished.
    Skip,
    /// Refuse it: it has the wrong size.
    WrongSize,
    /// Scale it and encode it.
    Encode,
}

/// Bytes of an RGBA picture with 8 bits each.
pub open spec fn rgba_len(width: u32, height: u32) -> int {
    width * height * 4
}

impl EncoderProgress {
    pub fn new(width: u32, height: u32) -> (r: Self)
        ensures
            r == (EncoderProgress { width, height, frame_count: 0, finished: false }),
    {
        EncoderProgress { width, height, frame_count: 0, finished: false }
    }

    /// What to do with a frame of `len` bytes.
    pub fn take_frame(&self, len: usize) -> (r: FrameVerdict)
        ensures
            r == if self.finished {
                FrameVerdict::Skip
            } else if len != rgba_len(self.width, self.height) {
                FrameVerdict::WrongSize
            } else {
                FrameVerdict::Encode
            },
            r == frame_verdict(*self, len as int),
    {
        if self.finished {
            return FrameVerdict::Skip;
        }
        proof {
            let w = self.width;
            let h = self.height;
            assert(0 <= w * h <= 0xffff_ffff * 0xffff_ffff) by (nonlinear_arith)
                requires
                    0 <= w <= 0xffff_ffff,
                    0 <= h <= 0xffff_ffff,
            ;
        }
        let expected: u128 = (self.width as u128) * (self.height as u128) * 4;
        if len as u128 != expected {
            return FrameVerdict::WrongSize;
        }
        FrameVerdict::Encode
    }

    /// Counts a frame that was scaled and returns its time stamp. Frames are
    /// numbered in the order in which they are scaled; one that could not be
    /// scaled has no number.
    pub fn frame_scaled(&mut self) -> (pts: i64)
        requires
            old(self).frame_count < i64::MAX,
        ensures
            pts == old(self).frame_count,
            *final(self) == (EncoderProgress {
                frame_count: (old(self).frame_count + 1) as i64,
                ..*old(self)
            }),
            *final(self) == with_frame(*old(self)),
    {
        let pts: i64 = self.frame_count;
        self.frame_count = pts + 1;
        pts
    }

    /// Marks the end. Returns whether the encoder still has to be flushed and
    /// the file closed; a second call has nothing left to do.
    pub fn finish(&mut self) -> (r: bool)
        ensures
            r == !old(self).finished,
            *final(self) == (EncoderProgress { finished: true, ..*old(self) }),
            *final(self) == ended(*old(self)),
    {
        let first = !self.finished;
        self.finished = true;
        first
    }
}

/// Copies the rows of a tightly packed picture into `dst`, where row `y`
/// starts at `y * stride`. Bytes between rows keep their values.
pub fn place_rows(rgba: &Vec<u8>, dst: &mut Vec<u8>, stride: usize, width: u32, height: u32)
    requires
        rgba.len() == rgba_len(width, height),
        width * 4 <= stride,
        height > 0 ==> (height - 1) * stride + width * 4 <= old(dst).len(),
    ensures
        final(dst).len() == old(dst).len(),
        packed_rows(final(dst)@, stride as int, width * 4, height as int) == rgba@,
        forall|p: int|
            0 <= p < final(dst).len() && (p % (stride as int) >= width * 4 || p / (stride as int)
                >= height) ==> #[trigger] final(dst)@[p] == old(dst)@[p],
{
    if height == 0 || width == 0 {
        proof {
            assert(width * height * 4 == 0) by (nonlinear_arith)
                requires
                    height == 0 || width == 0,
            ;
            assert(height * (width * 4) == 0) by (nonlinear_arith)
                requires
                    height == 0 || width == 0,
            ;
            assert(packed_rows(dst@, stride as int, width * 4, height as int) =~= rgba@);
        }
        return;
    }
    proof {
        assert(width * height * 4 == height * (width * 4)) by (nonlinear_arith);
    }
    let row: usize = (width as usize) * 4;
    let ghost start = dst@;
    let ghost s = stride as int;
    let mut y: usize = 0;
    while y < height as usize
        invariant
            y <= height,
            height > 0,
            width > 0,
            row == width * 4,
            row <= stride,
            s == stride,
            rgba.len() == height * row,
            dst.len() == start.len(),
            (height - 1) * stride + row <= dst.len(),
            forall|a: int, b: int|
                0 <= a < y && 0 <= b < row ==> #[trigger] dst@[a * s + b] == rgba@[a * row + b],
            forall|p: int|
                0 <= p < dst.len() && (p % s >= row || p / s >= y) ==> #[trigger] dst@[p]
                    == start[p],
        decreases height - y,
    {
        proof {
            assert(y * stride <= (height - 1) * stride && y * stride >= 0) by (nonlinear_arith)
                requires
                    0 <= y <= height - 1,
                    stride >= 0,
            ;
            assert(y * row + row <= height * row && y * row >= 0) by (nonlinear_arith)
                requires
                    0 <= y <= height - 1,
                    row >= 0,
            ;
        }
        let off: usize = y * stride;
        let from: usize = y * row;
        let mut x: usize = 0;
        let ghost before = dst@;
        while x < row
            invariant
                x <= row,
                y < height,
                row == width * 4,
                0 < row <= stride,
                s == stride,
                off == y * stride,
                from == y * row,
                off + row <= dst.len(),
                from + row <= rgba.len(),
                dst.len() == before.len(),
                forall|p: int|
                    0 <= p < dst.len() ==> #[trigger] dst@[p] == if off <= p < off + x {
                        rgba@[from + (p - off)]
                    } else {
                        before[p]
                    },
            decreases row - x,
        {
            dst.set(off + x, rgba[from + x]);
            x = x + 1;
        }
        proof {
            assert forall|a: int, b: int| 0 <= a < y + 1 && 0 <= b < row implies #[trigger] dst@[a
                * s + b] == rgba@[a * row + b] by {
                if a < y {
                    assert(a * s + b < y * s && 0 <= a * s + b) by (nonlinear_arith)
                        requires
                            0 <= a,
                            a + 1 <= y,
                            0 <= b < s,
                    ;
                    assert(before[a * s + b] == rgba@[a * row + b]);
                } else {
                    assert(a * s + b == off + b);
                }
            }
            assert forall|p: int|
                0 <= p < dst.len() && (p % s >= row || p / s >= y + 1) implies #[trigger] dst@[p]
                == start[p] by {
                if off <= p < off + row {
                    vstd::arithmetic::div_mod::lemma_fundamental_div_mod_converse(
                        p,
                        s,
                        y as int,
                        p - off,
                    );
                    assert(false);
                }
                assert(before[p] == start[p]);
            }
        }
        y = y + 1;
    }
    proof {
        let got = packed_rows(dst@, s, row as int, height as int);
        assert forall|k: int| 0 <= k < got.len() implies got[k] == rgba@[k] by {
            let a = k / (row as int);
            let b = k % (row as int);
            vstd::arithmetic::div_mod::lemma_fundamental_div_mod(k, row as int);
            vstd::arithmetic::div_mod::lemma_mod_bound(k, row as int);
            assert(a * row + b == k) by (nonlinear_arith)
                requires
                    k == row * a + b,
            ;
            assert(0 <= a < height) by (nonlinear_arith)
                requires
                    k == row * a + b,
                    0 <= b < row,
                    0 <= k < height * row,
                    row > 0,
            ;
            assert(dst@[a * s + b] == rgba@[a * row + b]);
        }
        assert(got =~= rgba@);
    }
}

/// The values that `options` give for `name`, in order.
pub open spec fn values_of(options: Seq<(Seq<char>, Seq<char>)>, name: Seq<char>) -> Seq<Seq<char>>
    decreases options.len(),
{
    if options.len() == 0 {
        Seq::empty()
    } else {
        let rest = values_of(options.drop_last(), name);
        if options.last().0 == name {
            rest.push(options.last().1)
        } else {
            rest
        }
    }
}

proof fn values_of_joined(
    a: Seq<(Seq<char>, Seq<char>)>,
    b: Seq<(Seq<char>, Seq<char>)>,
    name: Seq<char>,
)
    ensures
        values_of(a + b, name) == values_of(a, name) + values_of(b, name),
    decreases b.len(),
{
    if b.len() == 0 {
        assert(a + b =~= a);
        assert(values_of(a, name) + values_of(b, name) =~= values_of(a, name));
    } else {
        assert((a + b).drop_last() =~= a + b.drop_last());
        values_of_joined(a, b.drop_last(), name);
        assert(values_of(a + b, name) =~= values_of(a, name) + values_of(b, name));
    }
}

proof fn values_of_one(n: Seq<char>, v: Seq<char>, name: Seq<char>)
    ensures
        values_of(seq![(n, v)], name) == if n == name {
            seq![v]
        } else {
            Seq::empty()
        },
{
    let s = seq![(n, v)];
    assert(s.drop_last() =~= Seq::empty());
    assert(values_of(s.drop_last(), name) =~= Seq::<Seq<char>>::empty());
    assert(values_of(s, name) =~= if n == name {
        seq![v]
    } else {
        Seq::empty()
    });
}

proof fn option_values(o: EncodeModel, name: Seq<char>)
    ensures
        ({
            let none = Seq::<Seq<char>>::empty();
            let preset = if o.preset.len() > 0 && name == "preset"@ {
                seq![o.preset]
            } else {
                none
            };
            let profile = if o.profile.len() > 0 && name == "profile"@ {
                seq![o.profile]
            } else {
                none
            };
            let crf = if o.rate_control == RateControl::Crf && name == "crf"@ {
                seq![decimal(o.crf as nat)]
            } else {
                none
            };
            let nvenc = o.hw == HwEncoder::Nvenc && name == "rc"@;
            let rc = if nvenc && o.rate_control == RateControl::Cbr {
                seq!["cbr"@]
            } else if nvenc && o.rate_control == RateControl::Vbr {
                seq!["vbr"@]
            } else {
                none
            };
            let bf = if name == "bf"@ {
                seq!["0"@]
            } else {
                none
            };
            values_of(encoder_options(o), name) == preset + profile + (crf + rc) + bf
        }),
{
    let none = Seq::<(Seq<char>, Seq<char>)>::empty();
    let preset = if o.preset.len() == 0 {
        none
    } else {
        seq![("preset"@, o.preset)]
    };
    let profile = if o.profile.len() == 0 {
        none
    } else {
        seq![("profile"@, o.profile)]
    };
    let rate = match o.rate_control {
        RateControl::Crf => seq![("crf"@, decimal(o.crf as nat))],
        RateControl::Cbr => if o.hw == HwEncoder::Nvenc {
            seq![("rc"@, "cbr"@)]
        } else {
            none
        },
        RateControl::Vbr => if o.hw == HwEncoder::Nvenc {
            seq![("rc"@, "vbr"@)]
        } else {
            none
        },
    };
    let bf = seq![("bf"@, "0"@)];
    assert(encoder_options(o) =~= preset + profile + rate + bf);
    values_of_joined(preset + profile + rate, bf, name);
    values_of_joined(preset + profile, rate, name);
    values_of_joined(preset, profile, name);
    values_of_one("preset"@, o.preset, name);
    values_of_one("profile"@, o.profile, name);
    values_of_one("crf"@, decimal(o.crf as nat), name);
    values_of_one("rc"@, "cbr"@, name);
    values_of_one("rc"@, "vbr"@, name);
    values_of_one("bf"@, "0"@, name);
    assert(values_of(none, name) =~= Seq::<Seq<char>>::empty());
    let e = Seq::<Seq<char>>::empty();
    let r = values_of(rate, name);
    assert(e + r =~= r && r + e =~= r);
}

/// The encoder is told the chosen quality, once, exactly where the rate is
/// controlled by quality, and what it is told reads back as that quality.
pub proof fn quality_reaches_the_encoder(o: EncodeModel)
    ensures
        ({
            let told = values_of(encoder_options(o), "crf"@);
            if o.rate_control == RateControl::Crf {
                told.len() == 1 && unsigned_value(told[0]) == Some(o.crf as nat)
            } else {
                told.len() == 0
            }
        }),
{
    reveal_strlit("preset");
    reveal_strlit("profile");
    reveal_strlit("crf");
    reveal_strlit("rc");
    reveal_strlit("bf");
    assert("preset"@.len() != "profile"@.len());
    assert("preset"@.len() != "crf"@.len());
    assert("preset"@.len() != "rc"@.len());
    assert("preset"@.len() != "bf"@.len());
    assert("profile"@.len() != "crf"@.len());
    assert("profile"@.len() != "rc"@.len());
    assert("profile"@.len() != "bf"@.len());
    assert("crf"@.len() != "rc"@.len());
    assert("crf"@.len() != "bf"@.len());
    assert("rc"@[0] != "bf"@[0]);
    option_values(o, "crf"@);
    decimal_round_trip(o.crf as nat);
}

/// Preset and profile reach the encoder as they were chosen, once each, and
/// not at all where they are empty.
pub proof fn preset_and_profile_reach_the_encoder(o: EncodeModel)
    ensures
        values_of(encoder_options(o), "preset"@) == if o.preset.len() > 0 {
            seq![o.preset]
        } else {
            Seq::empty()
        },
        values_of(encoder_options(o), "profile"@) == if o.profile.len() > 0 {
            seq![o.profile]
        } else {
            Seq::empty()
        },
{
    reveal_strlit("preset");
    reveal_strlit("profile");
    reveal_strlit("crf");
    reveal_strlit("rc");
    reveal_strlit("bf");
    assert("preset"@.len() != "profile"@.len());
    assert("preset"@.len() != "crf"@.len());
    assert("preset"@.len() != "rc"@.len());
    assert("preset"@.len() != "bf"@.len());
    assert("profile"@.len() != "crf"@.len());
    assert("profile"@.len() != "rc"@.len());
    assert("profile"@.len() != "bf"@.len());
    assert("crf"@.len() != "rc"@.len());
    assert("crf"@.len() != "bf"@.len());
    assert("rc"@[0] != "bf"@[0]);
    option_values(o, "preset"@);
    option_values(o, "profile"@);
    assert(values_of(encoder_options(o), "preset"@) =~= if o.preset.len() > 0 {
        seq![o.preset]
    } else {
        Seq::empty()
    });
    assert(values_of(encoder_options(o), "profile"@) =~= if o.profile.len() > 0 {
        seq![o.profile]
    } else {
        Seq::empty()
    });
}

/// The kind of rate control is named to NVENC alone, and only where a bitrate
/// controls the rate. No encoder makes bidirectional frames.
pub proof fn rate_control_is_named(o: EncodeModel)
    ensures
        values_of(encoder_options(o), "bf"@) == seq!["0"@],
        ({
            let told = values_of(encoder_options(o), "rc"@);
            if o.hw == HwEncoder::Nvenc && o.rate_control != RateControl::Crf {
                told == seq![
                    if o.rate_control == RateControl::Cbr {
                        "cbr"@
                    } else {
                        "vbr"@
                    },
                ]
            } else {
                told.len() == 0
            }
        }),
{
    reveal_strlit("preset");
    reveal_strlit("profile");
    reveal_strlit("crf");
    reveal_strlit("rc");
    reveal_strlit("bf");
    assert("preset"@.len() != "profile"@.len());
    assert("preset"@.len() != "crf"@.len());
    assert("preset"@.len() != "rc"@.len());
    assert("preset"@.len() != "bf"@.len());
    assert("profile"@.len() != "crf"@.len());
    assert("profile"@.len() != "rc"@.len());
    assert("profile"@.len() != "bf"@.len());
    assert("crf"@.len() != "rc"@.len());
    assert("crf"@.len() != "bf"@.len());
    assert("rc"@[0] != "bf"@[0]);
    option_values(o, "bf"@);
    option_values(o, "rc"@);
    assert(values_of(encoder_options(o), "bf"@) =~= seq!["0"@]);
    let told = values_of(encoder_options(o), "rc"@);
    if o.hw == HwEncoder::Nvenc && o.rate_control == RateControl::Cbr {
        assert(told =~= seq!["cbr"@]);
    } else if o.hw == HwEncoder::Nvenc && o.rate_control == RateControl::Vbr {
        assert(told =~= seq!["vbr"@]);
    }
}

/// The encoder is told nothing else.
pub proof fn nothing_else_reaches_the_encoder(o: EncodeModel, name: Seq<char>)
    requires
        name != "preset"@,
        name != "profile"@,
        name != "crf"@,
        name != "rc"@,
        name != "bf"@,
    ensures
        values_of(encoder_options(o), name).len() == 0,
{
    option_values(o, name);
}

/// Whether `r` is how the encoder for `o` is set up.
pub open spec fn is_setup(o: EncodeModel, r: EncoderSetup) -> bool {
    &&& r.width == o.width
    &&& r.height == o.height
    &&& r.time_base.0 == signed32(o.framerate.1)
    &&& r.time_base.1 == signed32(o.framerate.0)
    &&& r.frame_rate.0 == signed32(o.framerate.0)
    &&& r.frame_rate.1 == signed32(o.framerate.1)
    &&& r.bit_rate == if_set(o.target_bitrate)
    &&& r.max_bit_rate == if_set(o.max_bitrate)
    &&& r.gop == if o.keyframe_interval > 0 {
        Some(o.keyframe_interval)
    } else {
        None
    }
    &&& pair_texts(r.options@) == encoder_options(o)
}

/// A frame of the encoder's time base lasts as long as one of the options'
/// framerate, and the framerate that the encoder is told is its inverse. This
/// holds for framerates whose parts fit in 31 bits.
pub proof fn encoder_keeps_the_framerate(o: EncodeModel, r: EncoderSetup)
    requires
        is_setup(o, r),
        o.framerate.0 <= i32::MAX,
        o.framerate.1 <= i32::MAX,
    ensures
        r.frame_rate.0 * o.framerate.1 == o.framerate.0 * r.frame_rate.1,
        r.time_base.0 * o.framerate.0 == r.time_base.1 * o.framerate.1,
        r.time_base.0 == r.frame_rate.1,
        r.time_base.1 == r.frame_rate.0,
        o.framerate.1 > 0 ==> r.frame_rate.1 > 0,
{
    let a = o.framerate.0 as int;
    let b = o.framerate.1 as int;
    assert(a * b == b * a) by (nonlinear_arith);
}

/// A number in 32 bits and its signed reading differ by a multiple of the
/// whole range.
pub proof fn signed_reading_keeps_the_bits(x: u32)
    ensures
        (signed32(x) - x) % 0x1_0000_0000 == 0,
        i32::MIN <= signed32(x) <= i32::MAX,
{
}

/// Bitrates and the keyframe interval reach the encoder where they are set,
/// and where they are 0 the encoder is left its own choice.
pub proof fn limits_reach_the_encoder(o: EncodeModel, r: EncoderSetup)
    requires
        is_setup(o, r),
    ensures
        r.width * r.height == o.width * o.height && r.width == o.width,
        r.bit_rate is Some <==> o.target_bitrate > 0,
        r.bit_rate is Some ==> r.bit_rate->0 == o.target_bitrate,
        r.max_bit_rate is Some <==> o.max_bitrate > 0,
        r.max_bit_rate is Some ==> r.max_bit_rate->0 == o.max_bitrate,
        r.gop is Some <==> o.keyframe_interval > 0,
        r.gop is Some ==> r.gop->0 == o.keyframe_interval,
{
}

/// The name of a hardware encoder is that of the codec's family and that of
/// the hardware. Without hardware, and for ProRes, there is none.
pub proof fn hardware_encoders_are_named(codec: VideoCodec, hw: HwEncoder)
    ensures
        encoder_name(codec, hw) is Some <==> (codec == VideoCodec::H264 || codec
            == VideoCodec::H265) && hw != HwEncoder::Software,
        encoder_name(codec, hw) is Some ==> encoder_name(codec, hw)->0 == (if codec
            == VideoCodec::H264 {
            "h264_"@
        } else {
            "hevc_"@
        }) + hw_label(hw),
{
    reveal_strlit("h264_");
    reveal_strlit("hevc_");
    reveal_strlit("nvenc");
    reveal_strlit("vaapi");
    reveal_strlit("videotoolbox");
    reveal_strlit("h264_nvenc");
    reveal_strlit("h264_vaapi");
    reveal_strlit("h264_videotoolbox");
    reveal_strlit("hevc_nvenc");
    reveal_strlit("hevc_vaapi");
    reveal_strlit("hevc_videotoolbox");
    assert("h264_"@ + "nvenc"@ =~= "h264_nvenc"@);
    assert("h264_"@ + "vaapi"@ =~= "h264_vaapi"@);
    assert("h264_"@ + "videotoolbox"@ =~= "h264_videotoolbox"@);
    assert("hevc_"@ + "nvenc"@ =~= "hevc_nvenc"@);
    assert("hevc_"@ + "vaapi"@ =~= "hevc_vaapi"@);
    assert("hevc_"@ + "videotoolbox"@ =~= "hevc_videotoolbox"@);
}

/// The name of the pixel format `f`.
pub open spec fn pixel_format_name(f: PixelFormat) -> Seq<char> {
    match f {
        PixelFormat::Yuv420p => "yuv420p"@,
        PixelFormat::Yuv422p => "yuv422p"@,
        PixelFormat::Yuv444p => "yuv444p"@,
        PixelFormat::Yuv422p10le => "yuv422p10le"@,
        PixelFormat::Yuv444p10le => "yuv444p10le"@,
        PixelFormat::Yuva444p10le => "yuva444p10le"@,
    }
}

/// Pixel formats are known by their names, and by no other texts.
pub proof fn pixel_formats_are_known_by_name(f: PixelFormat, text: Seq<char>)
    ensures
        known_pixel_format(pixel_format_name(f)) == Some(f),
        known_pixel_format(text) is Some ==> text == pixel_format_name(
            known_pixel_format(text)->0,
        ),
{
    reveal_strlit("yuv420p");
    reveal_strlit("yuv422p");
    reveal_strlit("yuv444p");
    reveal_strlit("yuv422p10le");
    reveal_strlit("yuv444p10le");
    reveal_strlit("yuva444p10le");
    assert("yuv420p"@[5] != "yuv422p"@[5]);
    assert("yuv420p"@[4] != "yuv444p"@[4]);
    assert("yuv420p"@.len() != "yuv422p10le"@.len());
    assert("yuv420p"@.len() != "yuv444p10le"@.len());
    assert("yuv420p"@.len() != "yuva444p10le"@.len());
    assert("yuv422p"@[4] != "yuv444p"@[4]);
    assert("yuv422p"@.len() != "yuv422p10le"@.len());
    assert("yuv422p"@.len() != "yuv444p10le"@.len());
    assert("yuv422p"@.len() != "yuva444p10le"@.len());
    assert("yuv444p"@.len() != "yuv422p10le"@.len());
    assert("yuv444p"@.len() != "yuv444p10le"@.len());
    assert("yuv444p"@.len() != "yuva444p10le"@.len());
    assert("yuv422p10le"@[4] != "yuv444p10le"@[4]);
    assert("yuv422p10le"@.len() != "yuva444p10le"@.len());
    assert("yuv444p10le"@.len() != "yuva444p10le"@.len());
}

/// The ready-made options keep the size and the framerate of what is encoded;
/// a denominator of 0 counts as 1. They are of the codec that they are called
/// after.
pub proof fn options_keep_size_and_rate(width: u32, height: u32, num: u32, den: u32, o: EncodeModel)
    requires
        o == h264_options(width, height, num, den) || o == h265_options(width, height, num, den)
            || o == prores422_options(width, height, num, den) || o == prores4444_options(
            width,
            height,
            num,
            den,
        ),
    ensures
        o.width == width,
        o.height == height,
        o.framerate.1 > 0,
        den > 0 ==> o.framerate.0 * den == num * o.framerate.1,
        den == 0 ==> o.framerate == (num, 1u32),
        o.hw == HwEncoder::Software,
        o.target_bitrate == 0 && o.max_bitrate == 0,
{
}

/// The quality codecs are controlled by quality and differ in the codec
/// alone; ProRes is not, has no preset, makes every frame a keyframe, and
/// keeps alpha in its 4444 form alone.
pub proof fn options_fit_their_codecs(width: u32, height: u32, num: u32, den: u32)
    ensures
        ({
            let a = h264_options(width, height, num, den);
            let b = h265_options(width, height, num, den);
            let c = prores422_options(width, height, num, den);
            let d = prores4444_options(width, height, num, den);
            &&& a.codec == VideoCodec::H264 && b.codec == VideoCodec::H265
            &&& c.codec == VideoCodec::Prores422 && d.codec == VideoCodec::Prores4444
            &&& b == (EncodeModel { codec: b.codec, ..a })
            &&& a.rate_control == RateControl::Crf && a.crf == 18 && a.keyframe_interval == 0
            &&& a.preset == "medium"@ && a.profile == "high"@
            &&& known_pixel_format(a.pixel_format) == Some(PixelFormat::Yuv420p)
            &&& c.rate_control != RateControl::Crf && c.preset.len() == 0 && c.crf == 0
            &&& c.keyframe_interval == 1
            &&& c.profile == "standard"@ && d.profile == "4444"@
            &&& known_pixel_format(c.pixel_format) == Some(PixelFormat::Yuv422p10le)
            &&& known_pixel_format(d.pixel_format) == Some(PixelFormat::Yuva444p10le)
            &&& d == (EncodeModel {
                codec: d.codec,
                profile: d.profile,
                pixel_format: d.pixel_format,
                ..c
            })
        }),
{
    pixel_formats_are_known_by_name(PixelFormat::Yuv420p, Seq::empty());
    pixel_formats_are_known_by_name(PixelFormat::Yuv422p10le, Seq::empty());
    pixel_formats_are_known_by_name(PixelFormat::Yuva444p10le, Seq::empty());
}

/// What to do with a frame of `len` bytes.
pub open spec fn frame_verdict(p: EncoderProgress, len: int) -> FrameVerdict {
    if p.finished {
        FrameVerdict::Skip
    } else if len == rgba_len(p.width, p.height) {
        FrameVerdict::Encode
    } else {
        FrameVerdict::WrongSize
    }
}

/// `p` with one more frame.
pub open spec fn with_frame(p: EncoderProgress) -> EncoderProgress {
    EncoderProgress { frame_count: (p.frame_count + 1) as i64, ..p }
}

/// `p` after the end.
pub open spec fn ended(p: EncoderProgress) -> EncoderProgress {
    EncoderProgress { finished: true, ..p }
}

/// A frame is encoded if it has four bytes per pixel and the end was not
/// reached. Counting frames does not change which are encoded; after the end
/// every frame is skipped.
pub proof fn whole_frames_are_encoded(p: EncoderProgress, len: int)
    requires
        p.frame_count < i64::MAX,
    ensures
        !p.finished ==> (frame_verdict(p, len) is Encode <==> len == 4 * (p.width * p.height)),
        !p.finished ==> !(frame_verdict(p, len) is Skip),
        frame_verdict(ended(p), len) is Skip,
        frame_verdict(with_frame(p), len) == frame_verdict(p, len),
        with_frame(p).frame_count == p.frame_count + 1,
        with_frame(p).finished == p.finished,
        ended(p).frame_count == p.frame_count,
        ended(ended(p)) == ended(p),
{
}

/// Both profiles of ProRes are of one family; the other codecs have their own.
pub proof fn codec_families(a: VideoCodec, b: VideoCodec)
    ensures
        codec_family(a) == codec_family(b) <==> a == b || (is_prores(a) && is_prores(b)),
        codec_family(a) == CodecId::Prores <==> is_prores(a),
        codec_family(a) == CodecId::H264 <==> a == VideoCodec::H264,
{
}

/// Whether `codec` is a profile of ProRes.
pub open spec fn is_prores(codec: VideoCodec) -> bool {
    codec == VideoCodec::Prores422 || codec == VideoCodec::Prores4444
}

} // verus!
