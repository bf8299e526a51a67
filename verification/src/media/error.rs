//! Decode and probe errors.

use crate::text::cat;
use vstd::prelude::*;

verus! {

/// Why a media file could not be read or written. The texts of `Io`,
/// `Ffmpeg`, `Open` and `Decoder` are those of the failing call.
#[derive(Clone, Debug, PartialEq, Eq)]
pub enum DecodeError {
    Io(String),
    Ffmpeg(String),
    Open(String),
    Decoder(String),
    NoVideoStream(String),
    NoAudioStream,
    UnsupportedCodec(String),
    /// The target is written in seconds.
    SeekFailed { target_seconds: String },
    HwaccelInitFailed { kind: String, detail: String },
}

/// The text of an error.
pub open spec fn decode_error_text(e: DecodeError) -> Seq<char> {
    match e {
        DecodeError::Io(t) => "io: "@ + t@,
        DecodeError::Ffmpeg(t) => "ffmpeg: "@ + t@,
        DecodeError::Open(t) => "open: "@ + t@,
        DecodeError::Decoder(t) => "decoder: "@ + t@,
        DecodeError::NoVideoStream(p) => "no video stream in "@ + p@,
        DecodeError::NoAudioStream => "no audio stream"@,
        DecodeError::UnsupportedCodec(c) => "unsupported codec: "@ + c@,
        DecodeError::SeekFailed { target_seconds } => ("seek to "@ + target_seconds@)
            + "s failed"@,
        DecodeError::HwaccelInitFailed { kind, detail } => (("hwaccel init failed for "@ + kind@)
            + ": "@) + detail@,
    }
}

impl DecodeError {
    pub fn message(&self) -> (r: String)
        ensures
            r@ == decode_error_text(*self),
    {
        match self {
            DecodeError::Io(t) => cat("io: ", t),
            DecodeError::Ffmpeg(t) => cat("ffmpeg: ", t),
            DecodeError::Open(t) => cat("open: ", t),
            DecodeError::Decoder(t) => cat("decoder: ", t),
            DecodeError::NoVideoStream(p) => cat("no video stream in ", p),
            DecodeError::NoAudioStream => "no audio stream".to_owned(),
            DecodeError::UnsupportedCodec(c) => cat("unsupported codec: ", c),
            DecodeError::SeekFailed { target_seconds } => {
                let s = cat("seek to ", target_seconds);
                cat(&s, "s failed")
            },
            DecodeError::HwaccelInitFailed { kind, detail } => {
                let s = cat("hwaccel init failed for ", kind);
                let s = cat(&s, ": ");
                cat(&s, detail)
            },
        }
    }
}

} // verus!
