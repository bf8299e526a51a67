//! Decoding plans: which device to try, how a decoder is fed, and how its
//! pictures become tightly packed frames.

use crate::media::info::{nanos_of_stamp, stamp_nanos};
use vstd::prelude::*;

verus! {

/// Hardware decode device class. `Software` means no acceleration; `Auto`
/// asks for the best available, falling back to software.
#[derive(Clone, Copy, Debug, PartialEq, Eq, Structural)]
pub enum HwaccelKind {
    Auto,
    Software,
    Vaapi,
    Nvdec,
    VideoToolbox,
    D3d11va,
    Dxva2,
}

/// The name of `kind`.
pub open spec fn hwaccel_label(kind: HwaccelKind) -> Seq<char> {
    match kind {
        HwaccelKind::Auto => "auto"@,
        HwaccelKind::Software => "software"@,
        HwaccelKind::Vaapi => "vaapi"@,
        HwaccelKind::Nvdec => "nvdec"@,
        HwaccelKind::VideoToolbox => "videotoolbox"@,
        HwaccelKind::D3d11va => "d3d11va"@,
        HwaccelKind::Dxva2 => "dxva2"@,
    }
}

impl HwaccelKind {
    pub fn label(self) -> (r: &'static str)
        ensures
            r@ == hwaccel_label(self),
    {
        match self {
            HwaccelKind::Auto => "auto",
            HwaccelKind::Software => "software",
            HwaccelKind::Vaapi => "vaapi",
            HwaccelKind::Nvdec => "nvdec",
            HwaccelKind::VideoToolbox => "videotoolbox",
            HwaccelKind::D3d11va => "d3d11va",
            HwaccelKind::Dxva2 => "dxva2",
        }
    }
}

/// Operating systems with devices of their own.
#[derive(Clone, Copy, Debug, PartialEq, Eq, Structural)]
pub enum Platform {
    Linux,
    MacOs,
    Windows,
    Other,
}

/// The devices to try on `platform`, in order.
pub open spec fn platform_preferred(platform: Platform) -> Seq<HwaccelKind> {
    match platform {
        Platform::Linux => seq![HwaccelKind::Vaapi, HwaccelKind::Nvdec],
        Platform::MacOs => seq![HwaccelKind::VideoToolbox],
        Platform::Windows => seq![HwaccelKind::D3d11va, HwaccelKind::Nvdec, HwaccelKind::Dxva2],
        Platform::Other => Seq::empty(),
    }
}

/// The devices to try when `requested` was asked for, in order.
pub open spec fn candidates(requested: HwaccelKind, platform: Platform) -> Seq<HwaccelKind> {
    match requested {
        HwaccelKind::Software => Seq::empty(),
        HwaccelKind::Auto => platform_preferred(platform),
        explicit => seq![explicit],
    }
}

/// The device to try after `failed` others could not be opened; `None` means
/// to decode in software.
pub fn next_candidate(requested: HwaccelKind, platform: Platform, failed: usize) -> (r: Option<
    HwaccelKind,
>)
    ensures
        r == if failed < candidates(requested, platform).len() {
            Some(candidates(requested, platform)[failed as int])
        } else {
            None
        },
{
    match requested {
        HwaccelKind::Software => None,
        HwaccelKind::Auto => match (platform, failed) {
            (Platform::Linux, 0) => Some(HwaccelKind::Vaapi),
            (Platform::Linux, 1) => Some(HwaccelKind::Nvdec),
            (Platform::MacOs, 0) => Some(HwaccelKind::VideoToolbox),
            (Platform::Windows, 0) => Some(HwaccelKind::D3d11va),
            (Platform::Windows, 1) => Some(HwaccelKind::Nvdec),
            (Platform::Windows, 2) => Some(HwaccelKind::Dxva2),
            _ => None,
        },
        explicit => if failed == 0 {
            Some(explicit)
        } else {
            None
        },
    }
}

/// Every device that is tried is a real one.
pub proof fn candidates_are_devices(requested: HwaccelKind, platform: Platform, i: int)
    requires
        0 <= i < candidates(requested, platform).len(),
    ensures
        candidates(requested, platform)[i] != HwaccelKind::Auto,
        candidates(requested, platform)[i] != HwaccelKind::Software,
{
}

/// A decoded picture.
#[derive(Debug, PartialEq, Eq)]
pub struct DecodedFrame {
    /// Presentation time in nanoseconds from the start of the file.
    pub pts_nanos: u128,
    pub width: u32,
    pub height: u32,
    /// RGBA with 8 bits each, without gaps between rows.
    pub rgba: Vec<u8>,
}

/// The rows of a picture without the gaps between them: row `y` starts at
/// `y * stride` and has `row` bytes.
pub open spec fn packed_rows(raw: Seq<u8>, stride: int, row: int, height: int) -> Seq<u8> {
    Seq::new((height * row) as nat, |k: int| raw[(k / row) * stride + k % row])
}

/// The picture `raw` without the gaps between its rows.
pub fn pack_rows(raw: &Vec<u8>, stride: usize, width: u32, height: u32) -> (r: Vec<u8>)
    requires
        width * 4 <= u32::MAX,
        height > 0 ==> (height - 1) * stride + width * 4 <= raw.len(),
    ensures
        r@ == packed_rows(raw@, stride as int, width * 4, height as int),
{
    let row: usize = (width * 4) as usize;
    let mut out: Vec<u8> = Vec::new();
    let mut y: usize = 0;
    let ghost all = packed_rows(raw@, stride as int, row as int, height as int);
    let mut k: Ghost<int> = Ghost(0);
    assert(0 * row == 0) by (nonlinear_arith);
    while y < height as usize
        invariant
            y <= height,
            row == width * 4,
            height > 0 ==> (height - 1) * stride + row <= raw.len(),
            all == packed_rows(raw@, stride as int, row as int, height as int),
            k@ == y * row,
            out@ == all.take(k@),
        decreases height - y,
    {
        proof {
            assert(y * stride <= (height - 1) * stride && y * stride >= 0) by (nonlinear_arith)
                requires
                    0 <= y <= height - 1,
                    stride >= 0,
            ;
            assert(y * row + row <= height * row && y * row >= 0) by (nonlinear_arith)
                requires
                    0 <= y <= height - 1,
                    row >= 0,
            ;
        }
        let off: usize = y * stride;
        let mut x: usize = 0;
        while x < row
            invariant
                x <= row,
                y < height,
                row == width * 4,
                off == y * stride,
                off + row <= raw.len(),
                y * row + row <= height * row,
                y * row >= 0,
                all == packed_rows(raw@, stride as int, row as int, height as int),
                k@ == y * row + x,
                out@ == all.take(k@),
            decreases row - x,
        {
            proof {
                vstd::arithmetic::div_mod::lemma_fundamental_div_mod_converse(
                    k@,
                    row as int,
                    y as int,
                    x as int,
                );
                assert(all.len() == height * row);
                assert(all[k@] == raw@[off + x]);
            }
            out.push(raw[off + x]);
            proof {
                k@ = k@ + 1;
                assert(out@ =~= all.take(k@));
            }
            x = x + 1;
        }
        y = y + 1;
        assert(y * row == (y - 1) * row + row) by (nonlinear_arith);
    }
    assert(all.take(k@) =~= all) by {
        assert(k@ == height * row);
        assert(k@ >= 0) by (nonlinear_arith)
            requires
                k@ == height * row,
                height >= 0,
                row >= 0,
        ;
    }
    out
}

/// A decoded picture made of the rows of `raw`, shown `ticks` after the start
/// in a time base of `num / den` seconds.
pub fn make_frame(
    raw: &Vec<u8>,
    stride: usize,
    width: u32,
    height: u32,
    ticks: i64,
    time_base: (i32, i32),
) -> (r: DecodedFrame)
    requires
        width * 4 <= u32::MAX,
        height > 0 ==> (height - 1) * stride + width * 4 <= raw.len(),
    ensures
        r.pts_nanos == stamp_nanos(ticks, time_base.0, time_base.1),
        r.width == width,
        r.height == height,
        r.rgba@ == packed_rows(raw@, stride as int, width * 4, height as int),
{
    DecodedFrame {
        pts_nanos: nanos_of_stamp(ticks, time_base.0, time_base.1),
        width,
        height,
        rgba: pack_rows(raw, stride, width, height),
    }
}

/// What a decoder, or the file that feeds it, has just done.
#[derive(Clone, Copy, Debug, PartialEq, Eq, Structural)]
pub enum DecodeEvent {
    /// A frame was asked for.
    Start,
    /// The decoder gave a frame.
    FrameReady,
    /// The decoder has no frame yet.
    NoFrame,
    /// The file gave a packet of the video stream.
    OwnPacket,
    /// The file gave a packet of another stream.
    OtherPacket,
    /// The decoder took the packet.
    PacketSent,
    /// The decoder refused the packet.
    SendFailed,
    /// The file has no more packets.
    EndOfFile,
    /// The file could not be read.
    ReadFailed,
    /// The decoder was told of the end and gave a frame.
    DrainedFrame,
    /// The decoder was told of the end and has no more frames.
    Drained,
}

/// What to do next.
#[derive(Clone, Copy, Debug, PartialEq, Eq, Structural)]
pub enum DecodeStep {
    /// Ask the decoder for a frame.
    Receive,
    /// Read a packet from the file.
    ReadPacket,
    /// Hand the packet to the decoder.
    SendPacket,
    /// Tell the decoder that the file has ended, and ask for a frame.
    Drain,
    /// Return the frame.
    Deliver,
    /// Return that there are no more frames.
    Finish,
    /// Return the error.
    Fail,
}

/// How a decoder is fed: frames that are ready go out first, then the file is
/// read; packets of other streams are passed over; at the end of the file
/// what the decoder still holds is drained.
pub open spec fn decode_step(e: DecodeEvent) -> DecodeStep {
    match e {
        DecodeEvent::Start => DecodeStep::Receive,
        DecodeEvent::FrameReady => DecodeStep::Deliver,
        DecodeEvent::NoFrame => DecodeStep::ReadPacket,
        DecodeEvent::OwnPacket => DecodeStep::SendPacket,
        DecodeEvent::OtherPacket => DecodeStep::Receive,
        DecodeEvent::PacketSent => DecodeStep::Receive,
        DecodeEvent::SendFailed => DecodeStep::Fail,
        DecodeEvent::EndOfFile => DecodeStep::Drain,
        DecodeEvent::ReadFailed => DecodeStep::Fail,
        DecodeEvent::DrainedFrame => DecodeStep::Deliver,
        DecodeEvent::Drained => DecodeStep::Finish,
    }
}

/// What to do after `e`.
pub fn next_step(e: DecodeEvent) -> (r: DecodeStep)
    ensures
        r == decode_step(e),
{
    match e {
        DecodeEvent::Start | DecodeEvent::OtherPacket | DecodeEvent::PacketSent => {
            DecodeStep::Receive
        },
        DecodeEvent::FrameReady | DecodeEvent::DrainedFrame => DecodeStep::Deliver,
        DecodeEvent::NoFrame => DecodeStep::ReadPacket,
        DecodeEvent::OwnPacket => DecodeStep::SendPacket,
        DecodeEvent::SendFailed | DecodeEvent::ReadFailed => DecodeStep::Fail,
        DecodeEvent::EndOfFile => DecodeStep::Drain,
        DecodeEvent::Drained => DecodeStep::Finish,
    }
}

/// Every frame that a decoder gives, before or after the end of the file, is
/// delivered.
pub proof fn every_frame_is_delivered(e: DecodeEvent)
    ensures
        decode_step(e) == DecodeStep::Deliver <==> e == DecodeEvent::FrameReady || e
            == DecodeEvent::DrainedFrame,
{
}

/// The picture without gaps holds each row of the picture with gaps, in
/// order.
pub proof fn rows_are_kept(raw: Seq<u8>, stride: int, row: int, height: int, y: int, x: int)
    requires
        0 <= y < height,
        0 <= x < row,
    ensures
        packed_rows(raw, stride, row, height).len() == height * row,
        0 <= y * row + x < height * row,
        packed_rows(raw, stride, row, height)[y * row + x] == raw[y * stride + x],
{
    let k = y * row + x;
    vstd::arithmetic::div_mod::lemma_fundamental_div_mod_converse(k, row, y, x);
    assert(y * row + row <= height * row && 0 <= y * row) by (nonlinear_arith)
        requires
            0 <= y,
            y + 1 <= height,
            row >= 0,
    ;
}

/// A picture without gaps stays as it is.
pub proof fn tight_picture_stays(raw: Seq<u8>, row: int, height: int)
    requires
        row > 0,
        height >= 0,
        raw.len() == height * row,
    ensures
        packed_rows(raw, row, row, height) == raw,
{
    let p = packed_rows(raw, row, row, height);
    assert forall|k: int| 0 <= k < raw.len() implies p[k] == raw[k] by {
        vstd::arithmetic::div_mod::lemma_fundamental_div_mod(k, row);
        assert((k / row) * row == row * (k / row)) by (nonlinear_arith);
    }
    assert(p =~= raw);
}

/// Whether `platform` can have devices of this kind.
pub open spec fn made_for(kind: HwaccelKind, platform: Platform) -> bool {
    match kind {
        HwaccelKind::Vaapi => platform == Platform::Linux,
        HwaccelKind::Nvdec => platform == Platform::Linux || platform == Platform::Windows,
        HwaccelKind::VideoToolbox => platform == Platform::MacOs,
        HwaccelKind::D3d11va => platform == Platform::Windows,
        HwaccelKind::Dxva2 => platform == Platform::Windows,
        HwaccelKind::Auto => false,
        HwaccelKind::Software => false,
    }
}

/// Without a choice every kind of device that the platform can have is tried,
/// once, that of the platform itself first; a device that was asked for is the
/// only one that is tried, and software tries none.
pub proof fn devices_fit_the_platform(kind: HwaccelKind, platform: Platform)
    ensures
        candidates(HwaccelKind::Auto, platform).contains(kind) <==> made_for(kind, platform),
        candidates(HwaccelKind::Auto, platform).no_duplicates(),
        candidates(HwaccelKind::Software, platform).len() == 0,
        kind != HwaccelKind::Auto && kind != HwaccelKind::Software ==> candidates(kind, platform)
            == seq![kind],
        candidates(HwaccelKind::Auto, platform).len() > 0 ==> candidates(
            HwaccelKind::Auto,
            platform,
        )[0] != HwaccelKind::Nvdec && candidates(HwaccelKind::Auto, platform)[0]
            != HwaccelKind::Dxva2,
        candidates(HwaccelKind::Auto, platform).len() > 0 ==> candidates(
            HwaccelKind::Auto,
            platform,
        ).last() == if platform == Platform::Windows {
            HwaccelKind::Dxva2
        } else {
            candidates(HwaccelKind::Auto, platform).last()
        },
{
    let c = candidates(HwaccelKind::Auto, platform);
    match platform {
        Platform::Linux => {
            assert(c[0] == HwaccelKind::Vaapi && c[1] == HwaccelKind::Nvdec);
        },
        Platform::MacOs => {
            assert(c[0] == HwaccelKind::VideoToolbox);
        },
        Platform::Windows => {
            assert(c[0] == HwaccelKind::D3d11va && c[1] == HwaccelKind::Nvdec && c[2]
                == HwaccelKind::Dxva2);
        },
        Platform::Other => {},
    }
}

/// Each step of decoding has its own causes: a packet is sent exactly if it is
/// of the stream, the decoder is drained exactly at the end of the file, and
/// decoding ends exactly when nothing is left to drain.
pub proof fn decoding_steps_have_causes(e: DecodeEvent)
    ensures
        decode_step(e) == DecodeStep::SendPacket <==> e == DecodeEvent::OwnPacket,
        decode_step(e) == DecodeStep::Drain <==> e == DecodeEvent::EndOfFile,
        decode_step(e) == DecodeStep::Finish <==> e == DecodeEvent::Drained,
        decode_step(e) == DecodeStep::ReadPacket <==> e == DecodeEvent::NoFrame,
        decode_step(e) == DecodeStep::Fail <==> e == DecodeEvent::SendFailed || e
            == DecodeEvent::ReadFailed,
        decode_step(e) == DecodeStep::Receive <==> e == DecodeEvent::Start || e
            == DecodeEvent::OtherPacket || e == DecodeEvent::PacketSent,
{
}

/// The kind of decoder called `label`.
pub open spec fn device_called(label: Seq<char>) -> Option<HwaccelKind> {
    if label == "auto"@ {
        Some(HwaccelKind::Auto)
    } else if label == "software"@ {
        Some(HwaccelKind::Software)
    } else if label == "vaapi"@ {
        Some(HwaccelKind::Vaapi)
    } else if label == "nvdec"@ {
        Some(HwaccelKind::Nvdec)
    } else if label == "videotoolbox"@ {
        Some(HwaccelKind::VideoToolbox)
    } else if label == "d3d11va"@ {
        Some(HwaccelKind::D3d11va)
    } else if label == "dxva2"@ {
        Some(HwaccelKind::Dxva2)
    } else {
        None
    }
}

/// The label of a kind of decoder tells which it is.
pub proof fn devices_are_told_by_their_labels(x: HwaccelKind)
    ensures
        device_called(hwaccel_label(x)) == Some(x),
{
    reveal_strlit("auto");
    reveal_strlit("software");
    reveal_strlit("vaapi");
    reveal_strlit("nvdec");
    reveal_strlit("videotoolbox");
    reveal_strlit("d3d11va");
    reveal_strlit("dxva2");
    match x {
        HwaccelKind::Auto => {},
        HwaccelKind::Software => {
            assert("software"@.len() != "auto"@.len());
        },
        HwaccelKind::Vaapi => {
            assert("vaapi"@.len() != "auto"@.len());
            assert("vaapi"@.len() != "software"@.len());
        },
        HwaccelKind::Nvdec => {
            assert("nvdec"@.len() != "auto"@.len());
            assert("nvdec"@.len() != "software"@.len());
            assert("nvdec"@[0] != "vaapi"@[0]);
        },
        HwaccelKind::VideoToolbox => {
            assert("videotoolbox"@.len() != "auto"@.len());
            assert("videotoolbox"@.len() != "software"@.len());
            assert("videotoolbox"@.len() != "vaapi"@.len());
            assert("videotoolbox"@.len() != "nvdec"@.len());
        },
        HwaccelKind::D3d11va => {
            assert("d3d11va"@.len() != "auto"@.len());
            assert("d3d11va"@.len() != "software"@.len());
            assert("d3d11va"@.len() != "vaapi"@.len());
            assert("d3d11va"@.len() != "nvdec"@.len());
            assert("d3d11va"@.len() != "videotoolbox"@.len());
        },
        HwaccelKind::Dxva2 => {
            assert("dxva2"@.len() != "auto"@.len());
            assert("dxva2"@.len() != "software"@.len());
            assert("dxva2"@[0] != "vaapi"@[0]);
            assert("dxva2"@[0] != "nvdec"@[0]);
            assert("dxva2"@.len() != "videotoolbox"@.len());
            assert("dxva2"@.len() != "d3d11va"@.len());
        },
    }
}

} // verus!
