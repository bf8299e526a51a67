//! Audio and video: clocks, mixing, waveforms, files, codecs.

use std::time::SystemTime;

use felx::media::av_sync::{decide, AudioClock, SyncDecision, SyncTolerance};
use felx::media::decode::{
    make_frame, next_candidate, next_step, pack_rows, DecodeEvent, DecodeStep, HwaccelKind,
    Platform,
};
use felx::media::encode::{
    choose_encoder, codec_id_for, encoder_name_for, encoder_setup, pixel_format_id, place_rows,
    CodecId, EncodeOptions, EncoderChoice, EncoderProgress, FrameVerdict, HwEncoder, PixelFormat,
    RateControl,
};
use felx::media::error::DecodeError;
use felx::media::info::{framerate_of, nanos_of_stamp, nanos_of_ticks, AudioInfo};
use felx::media::library::{AssetError, AssetLibrary, AssetMetadata, FileStatus};
use felx::media::mixer::{stereo_samples, tap_of, window_taps, AudioSource, MixedBus};
use felx::media::samples::{
    append_frame, DecodedAudio, RawSample, SampleLayout, SampleType, CHANNELS,
    DEFAULT_SAMPLE_RATE,
};
use felx::media::signal::{build_effect, LumaLowpass, PhaseShift, TapeSpeed, UseField};
use felx::media::wav::{write_wav, WavBitDepth, WavSamples};
use felx::media::waveform::{compute_waveform, Waveform, WaveformBin};
use felx::model::curve::{Curve, CurveSample};
use felx::model::time::{Framerate, Rational};
use felx::params::values::{ParamValue, ParamValues};
use felx::scalar::Scalar;

fn s(x: f32) -> Scalar {
    Scalar::from_bits(x.to_bits())
}

fn f(x: Scalar) -> f32 {
    f32::from_bits(x.bits)
}

#[test]
fn fresh_clock_reports_frame_zero() {
    let clk = AudioClock::new(48_000);
    assert_eq!(clk.frame_at(Framerate::fps_30()), 0);
}

#[test]
fn samples_accumulate_into_the_correct_frame() {
    let mut clk = AudioClock::new(48_000);
    clk.add_samples(48_000);
    assert_eq!(clk.frame_at(Framerate::fps_30()), 30);
}

#[test]
fn no_drift_returns_hold() {
    let mut clk = AudioClock::new(48_000);
    clk.add_samples(48_000);
    let d = decide(30, &clk, Framerate::fps_30(), SyncTolerance::default());
    assert_eq!(d, SyncDecision::Hold);
}

#[test]
fn one_frame_drift_within_tolerance() {
    let mut clk = AudioClock::new(48_000);
    clk.add_samples(48_000);
    let d = decide(31, &clk, Framerate::fps_30(), SyncTolerance::default());
    assert_eq!(d, SyncDecision::Hold);
}

#[test]
fn larger_drift_triggers_snap() {
    let mut clk = AudioClock::new(48_000);
    clk.add_samples(48_000);
    let d = decide(50, &clk, Framerate::fps_30(), SyncTolerance::default());
    assert_eq!(d, SyncDecision::SnapTo(30));
}

#[test]
fn reset_to_seeks_clock_to_a_frame() {
    let mut clk = AudioClock::new(48_000);
    clk.reset_to(60, Framerate::fps_30(), 48_000);
    assert!((clk.samples() - 96_000).abs() < 5);
    assert_eq!(clk.samples(), 96_000);
    assert_eq!(clk.frame_at(Framerate::fps_30()), 60);
}

#[test]
fn a_clock_before_the_start_holds() {
    let mut clk = AudioClock::new(48_000);
    clk.add_samples(-48_000);
    assert_eq!(clk.frame_at(Framerate::fps_30()), -30);
    let d = decide(50, &clk, Framerate::fps_30(), SyncTolerance::default());
    assert_eq!(d, SyncDecision::Hold);
}

fn file(size_bytes: u64) -> FileStatus {
    FileStatus::File(AssetMetadata { size_bytes, modified_at: SystemTime::UNIX_EPOCH })
}

#[test]
fn refresh_populates_metadata() {
    let mut lib = AssetLibrary::new();
    let meta = lib.refresh("/tmp/lib/clip.mp4", file(11)).unwrap();
    assert_eq!(meta.size_bytes, 11);
    assert!(lib.metadata("/tmp/lib/clip.mp4").is_some());
}

#[test]
fn refresh_missing_file_returns_not_found() {
    let mut lib = AssetLibrary::new();
    let err = lib.refresh("/no/such/path/xyz.mp4", FileStatus::Missing).unwrap_err();
    assert!(matches!(err, AssetError::NotFound(_)));
    assert_eq!(err.message(), "asset not found: /no/such/path/xyz.mp4");
}

#[test]
fn refresh_directory_returns_not_a_file() {
    let mut lib = AssetLibrary::new();
    let err = lib.refresh("/tmp/lib", FileStatus::Other).unwrap_err();
    assert!(matches!(err, AssetError::NotAFile(_)));
    assert_eq!(err.message(), "asset is not a regular file: /tmp/lib");
}

#[test]
fn refresh_reports_failures() {
    let mut lib = AssetLibrary::new();
    let err = lib.refresh("/a", FileStatus::Failed("denied".to_string())).unwrap_err();
    assert_eq!(err, AssetError::Io("denied".to_string()));
    let err = lib.refresh("/a", FileStatus::Undated("no clock".to_string())).unwrap_err();
    assert_eq!(err.message(), "io: no clock");
    assert!(lib.is_empty());
}

#[test]
fn metadata_is_none_for_unknown_paths() {
    let lib = AssetLibrary::new();
    assert!(lib.metadata("/no/such/file").is_none());
}

#[test]
fn adding_a_second_asset_does_not_invalidate_the_first() {
    let mut lib = AssetLibrary::new();
    let m_a_initial = lib.refresh("/tmp/lib/a.mp4", file(4)).unwrap();
    let _ = lib.refresh("/tmp/lib/b.mp4", file(8)).unwrap();
    let m_a_after = *lib.metadata("/tmp/lib/a.mp4").unwrap();
    assert_eq!(m_a_initial, m_a_after);
    assert_eq!(lib.len(), 2);
}

#[test]
fn invalidate_removes_a_single_entry() {
    let mut lib = AssetLibrary::new();
    lib.refresh("/tmp/lib/a.mp4", file(1)).unwrap();
    lib.refresh("/tmp/lib/b.mp4", file(1)).unwrap();
    assert_eq!(lib.len(), 2);
    lib.invalidate("/tmp/lib/a.mp4");
    assert!(lib.metadata("/tmp/lib/a.mp4").is_none());
    assert!(lib.metadata("/tmp/lib/b.mp4").is_some());
    assert_eq!(lib.len(), 1);
    lib.clear();
    assert!(lib.is_empty());
}

#[test]
fn refresh_replaces_stale_metadata() {
    let mut lib = AssetLibrary::new();
    let m1 = lib.refresh("/tmp/lib/file.bin", file(5)).unwrap();
    let m2 = lib.refresh("/tmp/lib/./file.bin", file(27)).unwrap();
    assert!(m2.size_bytes > m1.size_bytes);
    assert_eq!(lib.len(), 1);
}

fn src(sample_rate: u32, channels: u32, pcm: Vec<f32>, gain: f32, pan: f32) -> AudioSource {
    AudioSource {
        sample_rate,
        channels,
        pcm: pcm.into_iter().map(s).collect(),
        gain: Curve::Static(s(gain)),
        pan: Curve::Static(s(pan)),
    }
}

fn level(c: &Curve<Scalar>, time: Rational) -> f32 {
    match c.sample_at_time(time) {
        CurveSample::Exact(v) => f(v),
        CurveSample::Blend { from, .. } => f(from.v),
    }
}

/// Mixes sources to a stereo bus by the positions that the library gives.
fn mix_window(
    sources: &[AudioSource],
    time_start: Rational,
    master_rate: u32,
    frames: usize,
    master_gain: f32,
) -> Vec<f32> {
    let mut out = vec![0.0_f32; frames * 2];
    for src in sources {
        let gain = s(level(&src.gain, time_start));
        let pan = s(level(&src.pan, time_start));
        let Some((gain, pan)) = src.levels_at(gain, pan) else {
            continue;
        };
        let theta = (f(pan) + 1.0) * 0.25 * std::f32::consts::PI;
        let (lg, rg) = (theta.cos() * f(gain), theta.sin() * f(gain));
        let side = |positions: &Vec<usize>| {
            let sum: f32 = positions.iter().map(|p| f(src.pcm[*p])).sum();
            sum / positions.len() as f32
        };
        for (i, tap) in window_taps(src, time_start, master_rate, frames).iter().enumerate() {
            let Some(tap) = tap else {
                continue;
            };
            let (l0, r0) = stereo_samples(src.channels, tap.i0);
            let (l1, r1) = stereo_samples(src.channels, tap.i1);
            let u = (tap.rest as f64 / tap.whole as f64) as f32;
            let l = side(&l0) * (1.0 - u) + side(&l1) * u;
            let r = side(&r0) * (1.0 - u) + side(&r1) * u;
            out[i * 2] += l * lg * master_gain;
            out[i * 2 + 1] += r * rg * master_gain;
        }
    }
    out
}

#[test]
fn windows_without_a_rate_are_silent_or_no_number() {
    let taps = |start: Rational, source: u32, master: u32, frames: usize| {
        window_taps(&src(source, 1, vec![1.0; frames], 1.0, 0.0), start, master, 2)
    };
    let (zero, never) = (Rational::new(0, 0), Rational::new(1, 0));
    assert_eq!(taps(never, 48_000, 48_000, 4), [None, None]);
    for tap in taps(zero, 48_000, 48_000, 4) {
        let t = tap.unwrap();
        assert_eq!((t.i0, t.i1, t.rest, t.whole), (0, 1, 0, 0));
    }
    let start = Rational::new(0, 1);
    let first = taps(start, 48_000, 0, 1);
    assert_eq!(first[0].map(|t| (t.i0, t.i1, t.whole)), Some((0, 0, 0)));
    assert_eq!(first[1], None);
    assert!(taps(start, 0, 0, 4).iter().all(|t| t.is_some()));
    assert!(taps(never, 0, 48_000, 4).iter().all(|t| t.is_some()));
    let bus = mix_window(&[src(48_000, 1, vec![1.0; 4], 1.0, 0.0)], zero, 48_000, 1, 1.0);
    assert!(bus.iter().all(|x| x.is_nan()));
    let bus = mix_window(&[src(48_000, 1, vec![1.0; 4], 1.0, 0.0)], never, 48_000, 1, 1.0);
    assert_eq!(bus, [0.0, 0.0]);
}

#[test]
fn single_centered_source_produces_equal_l_r() {
    let pcm: Vec<f32> = (0..48_000).flat_map(|_| [1.0_f32, 1.0]).collect();
    let bus =
        mix_window(&[src(48_000, 2, pcm, 1.0, 0.0)], Rational::new(0, 48_000), 48_000, 64, 1.0);
    for i in 0..64 {
        let l = bus[i * 2];
        let r = bus[i * 2 + 1];
        assert!((l - r).abs() < 1e-5);
        assert!((l - std::f32::consts::FRAC_1_SQRT_2).abs() < 1e-3);
    }
}

#[test]
fn full_left_pan_silences_right() {
    let pcm: Vec<f32> = vec![1.0; 256];
    let bus =
        mix_window(&[src(48_000, 1, pcm, 1.0, -1.0)], Rational::new(0, 48_000), 48_000, 64, 1.0);
    for i in 0..64 {
        assert!(bus[i * 2] > 0.95);
        assert!(bus[i * 2 + 1].abs() < 1e-5);
    }
}

#[test]
fn gain_zero_contributes_silence() {
    let pcm: Vec<f32> = vec![1.0; 256];
    let bus =
        mix_window(&[src(48_000, 2, pcm, 0.0, 0.0)], Rational::new(0, 48_000), 48_000, 32, 1.0);
    assert!(bus.iter().all(|x| x.abs() < 1e-9));
}

#[test]
fn two_sources_sum() {
    let a = src(48_000, 2, vec![1.0; 128], 0.5, 0.0);
    let b = src(48_000, 2, vec![1.0; 128], 0.5, 0.0);
    let bus = mix_window(&[a, b], Rational::new(0, 48_000), 48_000, 32, 1.0);
    for i in 0..32 {
        assert!((bus[i * 2] - std::f32::consts::FRAC_1_SQRT_2).abs() < 1e-2);
    }
}

#[test]
fn rate_conversion_matches_known_duration() {
    let n = 8_000;
    let pcm: Vec<f32> = (0..n).map(|_| 1.0).collect();
    let bus =
        mix_window(&[src(8_000, 1, pcm, 1.0, 0.0)], Rational::new(0, 48_000), 48_000, 48_000, 1.0);
    let nonzero = bus.iter().filter(|x| x.abs() > 1e-3).count();
    assert!(nonzero > 90_000);
}

#[test]
fn master_gain_scales_output() {
    let pcm: Vec<f32> = vec![1.0; 256];
    let bus =
        mix_window(&[src(48_000, 1, pcm, 1.0, -1.0)], Rational::new(0, 48_000), 48_000, 32, 0.5);
    for i in 0..32 {
        assert!((bus[i * 2] - 0.5).abs() < 1e-3);
    }
}

#[test]
fn taps_read_between_frames_and_stop_at_the_end() {
    let t = tap_of(Rational::new(0, 1), 24_000, 48_000, 10, 3).unwrap();
    assert_eq!((t.i0, t.i1, t.rest, t.whole), (1, 2, 24_000, 48_000));
    let last = tap_of(Rational::new(0, 1), 48_000, 48_000, 10, 9).unwrap();
    assert_eq!((last.i0, last.i1, last.rest), (9, 9, 0));
    assert_eq!(tap_of(Rational::new(0, 1), 48_000, 48_000, 10, 10), None);
    assert_eq!(stereo_samples(3, 2), (vec![6, 8], vec![7]));
    assert_eq!(MixedBus { sample_rate: 48_000, pcm: vec![s(0.0); 7] }.frames(), 3);
}

fn mono(pcm: &[f32], channels: usize) -> Vec<Scalar> {
    pcm.chunks(channels).map(|c| s(c.iter().sum::<f32>() / channels as f32)).collect()
}

#[test]
fn empty_pcm_yields_zeroed_bins() {
    let w = compute_waveform(&mono(&[], 2), 16);
    assert_eq!(w.bins.len(), 16);
    assert!(w.bins.iter().all(|b| *b == WaveformBin::default()));
    assert_eq!(Waveform::default().bins.len(), 0);
}

#[test]
fn full_scale_sine_hits_one_and_negative_one() {
    let n = 8000;
    let mut pcm = Vec::with_capacity(n * 2);
    for i in 0..n {
        let t = i as f32 / n as f32;
        let v = (t * 4.0 * std::f32::consts::TAU).sin();
        pcm.push(v);
        pcm.push(v);
    }
    let w = compute_waveform(&mono(&pcm, 2), 32);
    let max_max = w.bins.iter().map(|b| f(b.max)).fold(0.0_f32, f32::max);
    let min_min = w.bins.iter().map(|b| f(b.min)).fold(0.0_f32, f32::min);
    assert!(max_max > 0.9);
    assert!(min_min < -0.9);
}

#[test]
fn binning_respects_target_count() {
    let pcm: Vec<f32> = (0..1000).map(|i| i as f32 * 0.001).collect();
    let w = compute_waveform(&mono(&pcm, 1), 50);
    assert_eq!(w.bins.len(), 50);
}

#[test]
fn dc_signal_min_equals_max() {
    let pcm: Vec<f32> = vec![0.5; 1000];
    let w = compute_waveform(&mono(&pcm, 1), 10);
    for b in &w.bins {
        assert!((f(b.min) - 0.5).abs() < 1e-6);
        assert!((f(b.max) - 0.5).abs() < 1e-6);
    }
}

#[test]
fn channels_average_into_mono() {
    let pcm: Vec<f32> = (0..1000).flat_map(|_| [1.0_f32, -1.0]).collect();
    let w = compute_waveform(&mono(&pcm, 2), 4);
    for b in &w.bins {
        assert!(f(b.min).abs() < 1e-6);
        assert!(f(b.max).abs() < 1e-6);
    }
}

#[test]
fn frames_are_read_in_every_layout() {
    let bytes = |v: &[i16]| v.iter().flat_map(|x| x.to_le_bytes()).collect::<Vec<u8>>();
    let mut out = Vec::new();
    append_frame(
        SampleType::I16,
        SampleLayout::Packed,
        &vec![bytes(&[1, -2, 3, -4])],
        2,
        2,
        &mut out,
    );
    assert_eq!(
        out,
        vec![RawSample::I16(1), RawSample::I16(-2), RawSample::I16(3), RawSample::I16(-4)]
    );
    let mut out = Vec::new();
    append_frame(
        SampleType::I16,
        SampleLayout::Planar,
        &vec![bytes(&[1, 3]), bytes(&[-2, -4])],
        2,
        2,
        &mut out,
    );
    assert_eq!(
        out,
        vec![RawSample::I16(1), RawSample::I16(-2), RawSample::I16(3), RawSample::I16(-4)]
    );
    let mut out = Vec::new();
    append_frame(
        SampleType::F32,
        SampleLayout::Packed,
        &vec![0.5_f32.to_le_bytes().to_vec()],
        1,
        1,
        &mut out,
    );
    assert_eq!(out, vec![RawSample::F32(s(0.5))]);
    append_frame(
        SampleType::I32,
        SampleLayout::Planar,
        &vec![(-7_i32).to_le_bytes().to_vec()],
        1,
        1,
        &mut out,
    );
    append_frame(
        SampleType::F64,
        SampleLayout::Packed,
        &vec![1.5_f64.to_le_bytes().to_vec()],
        1,
        1,
        &mut out,
    );
    assert_eq!(out[1], RawSample::I32(-7));
    assert_eq!(out[2], RawSample::F64(1.5_f64.to_bits()));
    append_frame(SampleType::Other, SampleLayout::Packed, &vec![vec![9, 9]], 1, 2, &mut out);
    assert_eq!(&out[3..], &[RawSample::Silence, RawSample::Silence]);
}

#[test]
fn planes_of_double_precision_are_read() {
    let bytes = |v: &[f64]| v.iter().flat_map(|x| x.to_le_bytes()).collect::<Vec<u8>>();
    let mut out = vec![RawSample::Silence];
    append_frame(
        SampleType::F64,
        SampleLayout::Planar,
        &vec![bytes(&[0.5, -0.25]), bytes(&[1.0])],
        2,
        2,
        &mut out,
    );
    assert_eq!(
        out,
        vec![
            RawSample::Silence,
            RawSample::F64(0.5_f64.to_bits()),
            RawSample::F64(1.0_f64.to_bits()),
            RawSample::F64((-0.25_f64).to_bits()),
            RawSample::Silence,
        ]
    );
    append_frame(
        SampleType::F32,
        SampleLayout::Planar,
        &vec![0.5_f32.to_le_bytes().to_vec()],
        1,
        1,
        &mut out,
    );
    assert_eq!(out[5], RawSample::F32(s(0.5)));
    append_frame(
        SampleType::I32,
        SampleLayout::Packed,
        &vec![(-9_i32).to_le_bytes().to_vec()],
        1,
        1,
        &mut out,
    );
    assert_eq!(out[6], RawSample::I32(-9));
    append_frame(SampleType::Other, SampleLayout::Planar, &vec![], 1, 1, &mut out);
    append_frame(SampleType::Other, SampleLayout::Packed, &vec![], 1, 1, &mut out);
    assert_eq!(out[7..], [RawSample::Silence, RawSample::Silence]);
}

#[test]
fn negative_stamps_are_at_the_start() {
    assert_eq!(nanos_of_stamp(-1, -1, 1), 0);
    assert_eq!(nanos_of_ticks(-1, -1, 1), 1_000_000_000);
    assert_eq!(nanos_of_stamp(1001, 1, 30_000), 33_366_667);
    assert_eq!(nanos_of_stamp(5, 1, 0), 0);
    assert_eq!(nanos_of_stamp(5, -1, 1), 0);
    let frame = make_frame(&vec![0; 4], 4, 1, 1, -1, (-1, 1));
    assert_eq!(frame.pts_nanos, 0);
}

#[test]
fn decoded_audio_knows_its_length() {
    let a = DecodedAudio { sample_rate: 48_000, channels: 2, pcm: vec![s(0.0); 96_000] };
    assert_eq!(a.frames(), 48_000);
    assert_eq!(a.duration_nanos(), 1_000_000_000);
    assert_eq!((DEFAULT_SAMPLE_RATE, CHANNELS), (48_000, 2));
    assert_eq!(AudioInfo::default().sample_rate, 0);
}

#[test]
fn wav_files_hold_header_and_samples() {
    let file = write_wav(&WavSamples::Pcm16(vec![1, -1, 256, -256]), 44_100, 2);
    assert_eq!(&file[0..4], b"RIFF");
    assert_eq!(&file[4..8], &(36u32 + 8).to_le_bytes());
    assert_eq!(&file[8..16], b"WAVEfmt ");
    assert_eq!(&file[16..20], &16u32.to_le_bytes());
    assert_eq!(&file[20..22], &1u16.to_le_bytes());
    assert_eq!(&file[22..24], &2u16.to_le_bytes());
    assert_eq!(&file[24..28], &44_100u32.to_le_bytes());
    assert_eq!(&file[28..32], &(44_100u32 * 4).to_le_bytes());
    assert_eq!(&file[32..34], &4u16.to_le_bytes());
    assert_eq!(&file[34..36], &16u16.to_le_bytes());
    assert_eq!(&file[36..40], b"data");
    assert_eq!(&file[40..44], &8u32.to_le_bytes());
    let back: Vec<i16> =
        file[44..].chunks(2).map(|c| i16::from_le_bytes([c[0], c[1]])).collect();
    assert_eq!(back, vec![1, -1, 256, -256]);

    let file = write_wav(&WavSamples::Float32(vec![s(0.5), s(-0.25)]), 22_050, 1);
    assert_eq!(&file[20..22], &3u16.to_le_bytes());
    let back: Vec<f32> =
        file[44..].chunks(4).map(|c| f32::from_le_bytes([c[0], c[1], c[2], c[3]])).collect();
    assert_eq!(back, vec![0.5, -0.25]);

    let file = write_wav(&WavSamples::Pcm24(vec![-1, 0x123456]), 48_000, 1);
    assert_eq!(&file[44..], &[0xff, 0xff, 0xff, 0x56, 0x34, 0x12]);
    assert_eq!(WavBitDepth::Pcm24.bits(), 24);
    assert_eq!(WavBitDepth::Float32.format_tag(), 3);
}

#[test]
fn devices_are_tried_in_order() {
    assert_eq!(next_candidate(HwaccelKind::Software, Platform::Linux, 0), None);
    assert_eq!(next_candidate(HwaccelKind::Auto, Platform::Linux, 0), Some(HwaccelKind::Vaapi));
    assert_eq!(next_candidate(HwaccelKind::Auto, Platform::Linux, 1), Some(HwaccelKind::Nvdec));
    assert_eq!(next_candidate(HwaccelKind::Auto, Platform::Linux, 2), None);
    assert_eq!(next_candidate(HwaccelKind::Auto, Platform::Other, 0), None);
    assert_eq!(next_candidate(HwaccelKind::Dxva2, Platform::Linux, 0), Some(HwaccelKind::Dxva2));
    assert_eq!(next_candidate(HwaccelKind::Dxva2, Platform::Linux, 1), None);
    assert_eq!(HwaccelKind::VideoToolbox.label(), "videotoolbox");
}

#[test]
fn rows_are_packed_and_placed() {
    let raw: Vec<u8> = (0..24).collect();
    assert_eq!(
        pack_rows(&raw, 12, 2, 2),
        vec![0, 1, 2, 3, 4, 5, 6, 7, 12, 13, 14, 15, 16, 17, 18, 19]
    );
    let frame = make_frame(&raw, 12, 2, 2, 3, (1, 10));
    assert_eq!(frame.pts_nanos, 300_000_000);
    assert_eq!((frame.width, frame.height, frame.rgba.len()), (2, 2, 16));
    let rgba: Vec<u8> = (1..=16).collect();
    let mut dst = vec![0u8; 24];
    place_rows(&rgba, &mut dst, 12, 2, 2);
    assert_eq!(&dst[0..8], &rgba[0..8]);
    assert_eq!(&dst[12..20], &rgba[8..16]);
    assert_eq!(&dst[8..12], &[0, 0, 0, 0]);
}

/// Runs the decode loop against a decoder that holds each frame back until the
/// next packet comes; returns how many frames went out.
fn frames_delivered(packets: usize) -> usize {
    let mut left = packets;
    let mut held = 0usize;
    let mut ready = 0usize;
    let mut delivered = 0usize;
    loop {
        let mut event = DecodeEvent::Start;
        loop {
            event = match next_step(event) {
                DecodeStep::Receive => {
                    if ready > 0 {
                        ready -= 1;
                        DecodeEvent::FrameReady
                    } else {
                        DecodeEvent::NoFrame
                    }
                }
                DecodeStep::ReadPacket => {
                    if left > 0 {
                        left -= 1;
                        DecodeEvent::OwnPacket
                    } else {
                        DecodeEvent::EndOfFile
                    }
                }
                DecodeStep::SendPacket => {
                    ready += held;
                    held = 1;
                    DecodeEvent::PacketSent
                }
                DecodeStep::Drain => {
                    if held > 0 {
                        held -= 1;
                        DecodeEvent::DrainedFrame
                    } else {
                        DecodeEvent::Drained
                    }
                }
                DecodeStep::Deliver => {
                    delivered += 1;
                    break;
                }
                DecodeStep::Finish => return delivered,
                DecodeStep::Fail => panic!("no event fails here"),
            };
        }
    }
}

#[test]
fn software_decode_yields_all_frames_and_terminates() {
    assert_eq!(frames_delivered(10), 10);
    assert_eq!(frames_delivered(0), 0);
}

#[test]
fn decoding_passes_over_other_streams_and_stops_on_errors() {
    assert_eq!(next_step(DecodeEvent::OtherPacket), DecodeStep::Receive);
    assert_eq!(next_step(DecodeEvent::ReadFailed), DecodeStep::Fail);
    assert_eq!(next_step(DecodeEvent::SendFailed), DecodeStep::Fail);
}

#[test]
fn rgba_size_mismatch_returns_error() {
    let mut enc = EncoderProgress::new(64, 36);
    assert_eq!(enc.take_frame(64 * 36 * 4 - 1), FrameVerdict::WrongSize);
    assert_eq!(enc.take_frame(64 * 36 * 4), FrameVerdict::Encode);
    assert_eq!(enc.frame_scaled(), 0);
    // A frame that is taken but cannot be scaled does not use up a number.
    assert_eq!(enc.take_frame(64 * 36 * 4), FrameVerdict::Encode);
    assert_eq!(enc.take_frame(64 * 36 * 4), FrameVerdict::Encode);
    assert_eq!(enc.frame_scaled(), 1);
    assert_eq!(enc.frame_count, 2);
    assert!(enc.finish());
    assert!(!enc.finish());
    assert_eq!(enc.take_frame(64 * 36 * 4), FrameVerdict::Skip);
}

#[test]
fn encoders_are_set_up_from_their_options() {
    let mut o = EncodeOptions::h264_default(64, 36, 30, 1);
    assert_eq!(codec_id_for(&o), CodecId::H264);
    let setup = encoder_setup(&o);
    assert_eq!((setup.width, setup.height), (64, 36));
    assert_eq!(setup.frame_rate, (30, 1));
    assert_eq!(setup.time_base, (1, 30));
    assert_eq!(setup.pixel_format, PixelFormat::Yuv420p);
    o.rate_control = RateControl::Cbr;
    o.target_bitrate = 5_000;
    assert_eq!(encoder_setup(&o).bit_rate, Some(5_000));
    o.hw = HwEncoder::Nvenc;
    assert_eq!(encoder_name_for(&o), Some("h264_nvenc"));
    assert_eq!(choose_encoder(&o, true, true), Ok(EncoderChoice::Named));
    assert_eq!(choose_encoder(&o, false, true), Ok(EncoderChoice::FamilyDefault));
    assert!(matches!(choose_encoder(&o, false, false), Err(DecodeError::UnsupportedCodec(_))));
    assert_eq!(pixel_format_id("yuv422p10le"), PixelFormat::Yuv422p10le);
    assert_eq!(EncodeOptions::h264_test(64, 36, 30, 1).preset, "ultrafast");
    let p = EncodeOptions::prores4444_default(64, 36, 30, 1);
    assert_eq!(codec_id_for(&p), CodecId::Prores);
}

#[test]
fn stream_times_and_rates_are_exact() {
    assert_eq!(nanos_of_ticks(90_000, 1, 90_000), 1_000_000_000);
    assert_eq!(nanos_of_ticks(1001, 1, 30_000), 33_366_667);
    assert_eq!(framerate_of(30_000, 1001), (30_000, 1001));
}

#[test]
fn signal_settings_stand_at_their_defaults() {
    let e = build_effect(&ParamValues::new());
    assert_eq!(e.use_field, UseField::InterleavedUpper);
    assert_eq!(e.input_luma_filter, LumaLowpass::Notch);
    assert_eq!(e.video_scanline_phase_shift, PhaseShift::Degrees180);
    assert_eq!(f(e.luma_smear), 0.5);
    assert_eq!(f(e.composite_sharpening), 1.0);
    assert_eq!(f(e.snow_intensity), 0.0);
    assert!(e.chroma_vert_blend);
    assert!(e.composite_noise.is_none());
    assert!(e.head_switching.is_none());
    assert!(e.vhs_settings.is_none());
}

#[test]
fn signal_settings_follow_the_values() {
    let mut v = ParamValues::new();
    v.set("snow_intensity".to_string(), ParamValue::Float(s(1.0)));
    v.set("use_field".to_string(), ParamValue::Enum("both".to_string()));
    v.set("video_scanline_phase_shift_deg".to_string(), ParamValue::Int(90));
    v.set("head_switching".to_string(), ParamValue::GroupEnabled(true));
    v.set("head_switching.height".to_string(), ParamValue::Int(12));
    v.set("vhs_settings".to_string(), ParamValue::GroupEnabled(true));
    v.set("vhs_settings.tape_speed".to_string(), ParamValue::Enum("ep".to_string()));
    v.set("vhs_settings.edge_wave".to_string(), ParamValue::GroupEnabled(false));
    let e = build_effect(&v);
    assert_eq!(f(e.snow_intensity), 1.0);
    assert_eq!(e.use_field, UseField::Both);
    assert_eq!(e.video_scanline_phase_shift, PhaseShift::Degrees90);
    let h = e.head_switching.unwrap();
    assert_eq!((h.height, h.offset, f(h.horiz_shift)), (12, 3, 72.0));
    let tape = e.vhs_settings.unwrap();
    assert_eq!(tape.tape_speed, TapeSpeed::Ep);
    assert!(tape.edge_wave.is_none());
    let sharpen = tape.sharpen.unwrap();
    assert_eq!((f(sharpen.intensity), f(sharpen.frequency)), (1.5, 1.0));
}
