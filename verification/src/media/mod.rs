//! Runtime media infrastructure: asset metadata cache, audio mixing plans,
//! waveform thumbnails, A/V sync timing, sample and file formats, and the
//! plans for decoding and encoding.

pub mod av_sync;
pub mod decode;
pub mod encode;
pub mod error;
pub mod info;
pub mod library;
pub mod mixer;
pub mod samples;
pub mod signal;
pub mod wav;
pub mod waveform;
