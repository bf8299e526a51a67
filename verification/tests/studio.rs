//! Playback, autosave, diagnostics, hot reload, the render queue, settings,
//! exports, and the audio queue.

use std::time::SystemTime;

use felx::media::av_sync::AudioClock;
use felx::media::encode::{HwEncoder, RateControl};
use felx::media::samples::DecodedAudio;
use felx::media::wav::WavBitDepth;
use felx::model::composition::CompId;
use felx::model::project::Project;
use felx::model::time::{Framerate, Rational};
use felx::scalar::Scalar;
use felx::studio::audio::{
    layer_source, lead_in, AudioDrive, AudioStep, PlaybackError, RingBuffer, CHUNK_FRAMES, MASTER_RATE,
    TARGET_QUEUE,
};
use felx::studio::autosave::{
    autosave_failed, autosave_path, check_recovery, AutoSave, RecoveryStatus,
};
use felx::studio::diagnostics::{crash_report, report_name, PanicPlace};
use felx::studio::export::{
    ensure_extension, plan_export, ExportFormat, ExportJobKind, ExportOptions, ExportProgress,
    ExportStatus, GifDither,
};
use felx::studio::hot_reload::{effect_id_from_path, Debounce, HotReloadEvent, DEBOUNCE_NANOS};
use felx::studio::playback::Playhead;
use felx::studio::render_queue::{OutputKind, QueueAction, QueueState, RenderQueue};
use felx::studio::settings::{
    choose_adapter, choose_viewer_adapter, diagnostics_dir, home_dir, settings_path,
    AdapterChoice, AdapterInfo, Settings,
};

fn s(x: f32) -> Scalar {
    Scalar::from_bits(x.to_bits())
}

fn f(x: Scalar) -> f32 {
    f32::from_bits(x.bits)
}

#[test]
fn starts_stopped_at_frame_zero() {
    let p = Playhead::new(Framerate::new(30, 1), 100);
    assert!(!p.is_playing());
    assert_eq!(p.current_frame(), 0);
}

#[test]
fn step_forward_advances_and_wraps() {
    let mut p = Playhead::new(Framerate::new(30, 1), 3);
    p.step_forward();
    assert_eq!(p.current_frame(), 1);
    p.step_forward();
    p.step_forward();
    assert_eq!(p.current_frame(), 0);
}

#[test]
fn step_backward_wraps_to_end() {
    let mut p = Playhead::new(Framerate::new(30, 1), 3);
    p.step_backward();
    assert_eq!(p.current_frame(), 2);
}

#[test]
fn seek_clamps_to_max() {
    let mut p = Playhead::new(Framerate::new(30, 1), 10);
    p.seek(99);
    assert_eq!(p.current_frame(), 9);
}

#[test]
fn tick_when_stopped_does_not_advance() {
    let mut p = Playhead::new(Framerate::new(30, 1), 100);
    assert!(!p.tick_by(50_000_000));
    assert!(!p.tick());
    assert_eq!(p.current_frame(), 0);
}

#[test]
fn tick_when_playing_advances_proportionally() {
    let mut p = Playhead::new(Framerate::new(60, 1), 100);
    p.play();
    let advanced = p.tick_by(40_000_000);
    assert!(advanced);
    assert!(p.current_frame() >= 1);
    assert_eq!(p.current_frame(), 2);
}

#[test]
fn toggle_flips_state() {
    let mut p = Playhead::new(Framerate::new(30, 1), 30);
    assert!(!p.is_playing());
    p.toggle();
    assert!(p.is_playing());
    p.toggle();
    assert!(!p.is_playing());
}

#[test]
fn playback_loops_and_keeps_the_rest() {
    let mut p = Playhead::new(Framerate::new(30, 1), 3);
    p.play();
    p.tick_by(50_000_000);
    p.tick_by(50_000_000);
    assert_eq!(p.current_frame(), 0);
    assert_eq!(p.repaint_after_nanos(), Some(16_666_667));
    p.pause();
    assert_eq!(p.repaint_after_nanos(), None);
    p.seek(2);
    p.set_duration_frames(2);
    assert_eq!((p.current_frame(), p.duration_frames()), (1, 2));
    p.set_duration_frames(0);
    assert_eq!((p.current_frame(), p.duration_frames()), (0, 1));
    p.set_framerate(Framerate::new(0, 1));
    assert_eq!(p.framerate(), Framerate::new(1, 1000));
}

#[test]
fn framerates_without_a_value_stop_nothing() {
    let mut p = Playhead::new(Framerate::new(30, 0), 100);
    assert!(!p.tick());
    assert_eq!(p.repaint_after_nanos(), None);
    p.play();
    assert_eq!(p.repaint_after_nanos(), Some(0));
    assert!(!p.tick_by(0));
    assert!(p.tick_by(1));
    assert_eq!(p.current_frame(), u32::MAX % 100);
    p.set_framerate(Framerate::new(0, 0));
    assert_eq!(p.framerate(), Framerate::new(1, 1000));
    p.set_framerate(Framerate::new(10, 1));
    p.seek(0);
    assert!(p.tick_by(250_000_000));
    assert_eq!(p.current_frame(), 2);

    let mut still = Playhead::new(Framerate::new(0, 0), 100);
    still.play();
    assert!(!still.tick_by(u128::MAX));
    assert_eq!(still.repaint_after_nanos(), Some(500_000_000));
    let mut zero = Playhead::new(Framerate::new(0, 1), 100);
    zero.play();
    assert!(!zero.tick_by(u128::MAX));
    assert_eq!(zero.repaint_after_nanos(), Some(500_000_000));
}

#[test]
fn time_is_counted_from_the_last_look() {
    let mut p = Playhead::new(Framerate::new(1000, 1), 1_000_000);
    p.play();
    let start = std::time::Instant::now();
    while start.elapsed().as_millis() < 20 {}
    assert!(p.tick());
    let first = p.current_frame();
    assert!(first >= 20);
    let again = std::time::Instant::now();
    p.tick();
    let most = first as u128 + again.elapsed().as_millis() + start.elapsed().as_millis();
    assert!(p.current_frame() as u128 <= most);
}

#[test]
fn saves_go_by_the_time_since_the_last() {
    let mut a = AutoSave::new(5_000_000);
    assert!(a.should_save_now());
    let last = a.last_save.unwrap();
    while last.elapsed().as_millis() < 6 {}
    assert!(a.should_save_now());
    assert!(a.last_save.unwrap() > last);
    let mut slow = AutoSave::new(u128::MAX);
    assert!(slow.should_save_now());
    let first = slow.last_save;
    assert!(!slow.should_save_now());
    assert_eq!(slow.last_save, first);
    let mut eager = AutoSave::new(0);
    assert!(eager.should_save_now() && eager.should_save_now());
}

#[test]
fn autosave_path_appends_suffix() {
    let p = autosave_path("/tmp/proj.felx");
    assert_eq!(p, "/tmp/proj.felx.autosave");
}

#[test]
fn should_save_first_call_returns_true() {
    let mut a = AutoSave::new(60_000_000_000);
    assert!(a.should_save_now());
    assert!(!a.should_save_now());
}

#[test]
fn check_recovery_no_file_returns_none() {
    assert_eq!(check_recovery(false, None, None), RecoveryStatus::Absent);
}

#[test]
fn check_recovery_goes_by_the_newer_file() {
    assert_eq!(check_recovery(true, Some(5), Some(6)), RecoveryStatus::Available);
    assert_eq!(check_recovery(true, Some(6), Some(6)), RecoveryStatus::Stale);
    assert_eq!(check_recovery(true, None, Some(1)), RecoveryStatus::Available);
    assert_eq!(check_recovery(true, Some(1), None), RecoveryStatus::Stale);
    assert_eq!(autosave_failed("/p", "full"), "autosave write /p: full");
    assert!(AutoSave::default_interval().is_due(None));
}

#[test]
fn diagnostics_dir_is_under_home_or_temp() {
    let home = home_dir(Some("/home/u".to_string()), None, "/tmp".to_string());
    let p = diagnostics_dir(&home);
    assert!(p.ends_with("diagnostics"));
    assert_eq!(p, "/home/u/.felx/diagnostics");
    let p = diagnostics_dir(&home_dir(None, None, "/tmp".to_string()));
    assert_eq!(p, "/tmp/.felx/diagnostics");
}

#[test]
fn crash_reports_name_place_and_message() {
    assert_eq!(report_name(1700), "crash-1700.txt");
    let place = PanicPlace { file: "a.rs".to_string(), line: 3, column: 14 };
    assert_eq!(
        crash_report(7, "boom", Some(place)),
        "felx-app crash report\n=====================\ntimestamp: 7\n\nmessage:\n  boom\n\n\
         location: a.rs:3:14\n\n(attach this file when filing a bug report)\n"
    );
    assert!(!crash_report(7, "boom", None).contains("location"));
}

#[test]
fn extracts_effect_id_from_typical_path() {
    assert_eq!(effect_id_from_path("effects/gain/effect.wgsl").as_deref(), Some("gain"));
}

#[test]
fn handles_absolute_path() {
    assert_eq!(
        effect_id_from_path("/home/u/proj/effects/cc_toner/effect.wgsl").as_deref(),
        Some("cc_toner")
    );
}

#[test]
fn no_parent_returns_none() {
    assert!(effect_id_from_path("effect.wgsl").is_none());
}

#[test]
fn changes_in_quick_succession_count_once() {
    let mut d = Debounce::new();
    let path = "effects/gain/effect.wgsl";
    let event = HotReloadEvent::WgslChanged {
        effect_id: "gain".to_string(),
        path: path.to_string(),
    };
    assert_eq!(d.changed(path, 1_000), Some(event.clone()));
    assert_eq!(d.changed(path, 2_000), None);
    assert_eq!(d.changed("effects/gain/manifest.ron", 2_000), None);
    assert!(d.changed("effects/crt/effect.wgsl", 2_000).is_some());
    assert_eq!(d.changed(path, 1_000 + DEBOUNCE_NANOS), Some(event));
    assert_eq!(d.changed("effect.wgsl", 1), None);
}

#[test]
fn enqueue_assigns_unique_ids() {
    let mut q = RenderQueue::new();
    let a = q.enqueue(CompId(1), "main".to_string(), OutputKind::H264, "a.mp4".to_string(), 100);
    let b = q.enqueue(CompId(1), "main".to_string(), OutputKind::Gif, "a.gif".to_string(), 100);
    assert_ne!(a, b);
}

#[test]
fn move_up_swaps_with_predecessor() {
    let mut q = RenderQueue::new();
    let a = q.enqueue(CompId(1), "a".to_string(), OutputKind::H264, "a".to_string(), 1);
    let b = q.enqueue(CompId(1), "b".to_string(), OutputKind::H264, "b".to_string(), 1);
    q.move_up(b);
    assert_eq!(q.entries()[0].id, b);
    assert_eq!(q.entries()[1].id, a);
    q.move_down(b);
    assert_eq!(q.entries()[0].id, a);
}

#[test]
fn cancel_marks_state_and_finishes() {
    let mut q = RenderQueue::new();
    let id = q.enqueue(CompId(1), "x".to_string(), OutputKind::Wav, "x.wav".to_string(), 0);
    q.cancel(id);
    let e = q.entries().first().unwrap();
    assert_eq!(e.state, QueueState::Cancelled);
    assert!(e.finished.is_some());
}

#[test]
fn next_pending_skips_finished() {
    let mut q = RenderQueue::new();
    let a = q.enqueue(CompId(1), "a".to_string(), OutputKind::H264, "a".to_string(), 1);
    let b = q.enqueue(CompId(1), "b".to_string(), OutputKind::H264, "b".to_string(), 1);
    q.mark_done(a);
    let next = q.next_pending().unwrap();
    assert_eq!(next.id, b);
}

#[test]
fn entries_run_pause_and_fail() {
    let mut q = RenderQueue::new();
    let a = q.enqueue(CompId(1), "a".to_string(), OutputKind::ExrSequence, "a".to_string(), 10);
    q.apply(QueueAction::Pause(a));
    assert!(q.next_pending().is_none());
    q.apply(QueueAction::Resume(a));
    assert_eq!(q.next_pending().unwrap().id, a);
    q.mark_running_at(a, SystemTime::UNIX_EPOCH);
    q.record_progress(a, 5);
    let e = &q.entries()[0];
    assert_eq!((e.state, e.frames_done), (QueueState::Running, 5));
    assert_eq!(e.eta_after(Some(10_000_000_000)), Some(10_000_000_000));
    q.mark_failed(a, "disk full".to_string());
    let e = &q.entries()[0];
    assert_eq!(e.state, QueueState::Failed);
    assert_eq!(e.last_error.as_deref(), Some("disk full"));
    assert_eq!(OutputKind::Prores4444.label(), "ProRes 4444");
}

#[test]
fn estimates_follow_the_time_since_the_start() {
    let mut q = RenderQueue::new();
    let a = q.enqueue(CompId(1), "a".to_string(), OutputKind::Gif, "a".to_string(), 30);
    assert_eq!(q.entries()[0].eta(), None);
    let before = SystemTime::now();
    q.mark_running(a);
    let started = q.entries()[0].started.unwrap();
    assert!(started >= before && started <= SystemTime::now());
    assert_eq!(q.entries()[0].eta(), None);
    let hour = std::time::Duration::from_secs(3600);
    q.mark_running_at(a, SystemTime::now() - hour);
    q.record_progress(a, 10);
    let left = q.entries()[0].eta().unwrap();
    let two_hours = 7_200_000_000_000_u128;
    assert!(left >= two_hours && left < two_hours + 60_000_000_000);
    q.mark_running_at(a, SystemTime::now() + hour);
    assert_eq!(q.entries()[0].eta(), None);
    q.mark_done(a);
    let e = &q.entries()[0];
    assert!(e.finished.unwrap() >= started && e.frames_done == 30);
}

#[test]
fn settings_default_to_automatic() {
    let st = Settings::default();
    assert!(st.viewer_gpu.is_none() && st.export_gpu.is_none());
    assert_eq!(settings_path("/home/u"), "/home/u/.felx/settings.ron");
    let c = AdapterChoice {
        name: "A".to_string(),
        backend: "Vulkan".to_string(),
        device_type: "Cpu".to_string(),
    };
    assert_eq!(c.label(), "A  •  Vulkan  •  Cpu");
}

fn adapter(name: &str, discrete: bool, legacy: bool) -> AdapterInfo {
    AdapterInfo { name: name.to_string(), discrete, legacy }
}

#[test]
fn adapters_are_chosen_by_preference_whatever_the_case() {
    let all = vec![
        adapter("Intel Iris", false, false),
        adapter("NVIDIA GeForce", true, false),
        adapter("Radeon PRO", true, true),
    ];
    assert_eq!(choose_viewer_adapter(&all, None, Some("RADEON")), Ok(2));
    assert_eq!(choose_viewer_adapter(&all, Some("iris"), Some("radeon")), Ok(0));
    assert_eq!(choose_viewer_adapter(&all, Some(""), Some("Radeon")), Ok(2));
    assert_eq!(choose_viewer_adapter(&all, None, Some("matrox")), Ok(1));
    assert_eq!(choose_viewer_adapter(&all, None, None), Ok(1));
    let old = vec![adapter("GL one", true, true), adapter("soft", false, false)];
    assert_eq!(choose_viewer_adapter(&old, None, None), Ok(1));
    let only = vec![adapter("GL one", true, true)];
    assert_eq!(choose_viewer_adapter(&only, None, None), Ok(0));
    assert_eq!(
        choose_viewer_adapter(&Vec::new(), None, None),
        Err("no wgpu adapters available".to_string())
    );
    let names: Vec<String> = ["intel", "nvidia"].iter().map(|n| n.to_string()).collect();
    assert_eq!(choose_adapter(&all[0..2].to_vec(), &names, Some("nvi")), Ok(1));
}

#[test]
fn extensions_are_completed() {
    let done = |format: ExportFormat, p: &str| ensure_extension(format, p.to_string());
    assert_eq!(done(ExportFormat::H264, "out"), ("out.mp4".to_string(), true));
    assert_eq!(done(ExportFormat::H264, "a/out.MP4"), ("a/out.MP4".to_string(), false));
    assert_eq!(done(ExportFormat::H265, "out.mkv"), ("out.mkv".to_string(), false));
    assert_eq!(done(ExportFormat::Gif, "out.mkv"), ("out.mkv.gif".to_string(), true));
    assert_eq!(done(ExportFormat::Prores422, "/x/clip"), ("/x/clip.mov".to_string(), true));
    assert_eq!(done(ExportFormat::PngSequence, "frames"), ("frames".to_string(), false));
    assert_eq!(done(ExportFormat::Wav, "/"), ("/export.wav".to_string(), true));
    assert_eq!(ExportFormat::all().len(), 8);
    assert_eq!(ExportFormat::ExrSequence.label(), "EXR sequence");
}

#[test]
fn exports_are_planned_by_format() {
    let mut p = Project::new();
    let id = p.add_composition("main".to_string(), 320, 240);
    p.composition_mut(id).unwrap().duration_frames = 42;
    let mut o = ExportOptions::default();
    assert_eq!(plan_export(&p, id, &o).unwrap_err(), "no output path");
    assert!(!o.ready());
    assert!(o.settle_path().is_err());
    o.out_path = Some("out".to_string());
    assert!(o.settle_path().is_ok());
    assert_eq!(plan_export(&p, CompId(9), &o).unwrap_err(), "comp not found in project");
    o.crf = 20;
    o.preset = String::new();
    let plan = plan_export(&p, id, &o).unwrap();
    assert_eq!((plan.out_path.as_str(), plan.total_frames), ("out.mp4", 42));
    match plan.job {
        ExportJobKind::Video(v) => {
            assert_eq!((v.width, v.height, v.crf), (320, 240, 20));
            assert_eq!(v.rate_control, RateControl::Crf);
            assert_eq!(v.hw, HwEncoder::Software);
            assert_eq!(v.preset, "medium");
        }
        other => panic!("unexpected {other:?}"),
    }
    o.choose_format(ExportFormat::Gif);
    assert!(o.out_path.is_none());
    o.out_path = Some("x.gif".to_string());
    match plan_export(&p, id, &o).unwrap().job {
        ExportJobKind::Gif(g) => {
            assert_eq!((g.max_palette, g.dither), (128, GifDither::FloydSteinberg));
            assert!(g.loop_forever && !g.transparency);
        }
        other => panic!("unexpected {other:?}"),
    }
    o.format = ExportFormat::Wav;
    assert_eq!(
        plan_export(&p, id, &o).unwrap().job,
        ExportJobKind::Wav { sample_rate: 48_000, depth: WavBitDepth::Pcm16 }
    );
}

#[test]
fn export_status_follows_the_worker() {
    let mut st = ExportStatus::default();
    assert!(!st.absorb(ExportProgress::Started { total_frames: 9 }));
    assert!(!st.absorb(ExportProgress::Frame { done: 3, total: 9 }));
    assert_eq!((st.done, st.total), (3, 9));
    assert!(st.absorb(ExportProgress::Failed("no".to_string())));
    assert_eq!(st.error.as_deref(), Some("no"));
    let mut st = ExportStatus::default();
    st.worker_lost();
    assert_eq!(st.error.as_deref(), Some("export worker disconnected unexpectedly"));
    let mut st = ExportStatus::default();
    assert!(st.absorb(ExportProgress::Done));
    st.worker_lost();
    assert!(st.finished && st.error.is_none());
}

#[test]
fn ring_buffer_enqueue_then_drain() {
    let mut b = RingBuffer::default();
    b.enqueue(&[s(1.0), s(2.0), s(3.0), s(4.0)]);
    let mut out = [s(0.0); 3];
    let real = b.drain_into(&mut out);
    assert_eq!(real, 3);
    assert_eq!(out.map(f), [1.0, 2.0, 3.0]);
    assert_eq!(b.len(), 1);
}

#[test]
fn ring_buffer_underrun_zero_fills() {
    let mut b = RingBuffer::default();
    b.enqueue(&[s(1.0), s(2.0)]);
    let mut out = [s(0.0); 5];
    let real = b.drain_into(&mut out);
    assert_eq!(real, 2);
    assert_eq!(out.map(f), [1.0, 2.0, 0.0, 0.0, 0.0]);
}

#[test]
fn ring_buffer_empty_drain_is_silent() {
    let mut b = RingBuffer::default();
    let mut out = [s(9.0); 4];
    let real = b.drain_into(&mut out);
    assert_eq!(real, 0);
    assert_eq!(out.map(f), [0.0; 4]);
}

#[test]
fn devices_get_stereo_on_their_first_channels() {
    let mut b = RingBuffer::default();
    b.enqueue(&[s(1.0), s(-1.0), s(2.0), s(-2.0), s(3.0), s(-3.0)]);
    let mut clock = AudioClock::new(48_000);
    let mut out = [s(9.0); 9];
    b.feed_device(&mut out, 4, &mut clock);
    assert_eq!(out.map(f), [1.0, -1.0, 0.0, 0.0, 2.0, -2.0, 0.0, 0.0, 9.0]);
    assert_eq!(clock.samples(), 2);
    let mut mono = [s(9.0); 2];
    b.feed_device(&mut mono, 1, &mut clock);
    assert_eq!(mono.map(f), [3.0, 0.0]);
    assert_eq!(clock.samples(), 3);
    let mut stereo = [s(9.0); 4];
    b.enqueue(&[s(5.0), s(6.0)]);
    b.feed_device(&mut stereo, 2, &mut clock);
    assert_eq!(stereo.map(f), [5.0, 6.0, 0.0, 0.0]);
    assert_eq!(clock.samples(), 4);
    assert_eq!(PlaybackError::NoOutputDevice.message(), "no audio output device");
    assert_eq!(PlaybackError::Play("x".to_string()).message(), "play stream: x");
}

#[test]
fn layers_begin_after_silence() {
    let d = DecodedAudio { sample_rate: 100, channels: 2, pcm: vec![s(1.0), s(2.0)] };
    let a = layer_source(&d, 15, Framerate::fps_30());
    assert_eq!(a.pcm.len(), 102);
    assert!(a.pcm[..100].iter().all(|x| f(*x) == 0.0));
    assert_eq!(f(a.pcm[100]), 1.0);
}

#[test]
fn sound_runs_on_at_a_framerate_of_zero() {
    let d = DecodedAudio { sample_rate: 100, channels: 2, pcm: vec![s(1.0)] };
    let zero = Framerate::new(0, 1);
    assert_eq!(layer_source(&d, 0, zero).pcm, vec![s(1.0)]);
    assert_eq!(layer_source(&d, 7, Framerate::new(0, 0)).pcm.len(), 1);
    assert_eq!(lead_in(0, zero, 100), 0);
    assert_eq!(lead_in(1, zero, 100), usize::MAX as u128);
    assert_eq!(lead_in(15, Framerate::fps_30(), 100), 50);
    let mut drive = AudioDrive::new();
    assert_eq!(drive.step(false, 1, 0, zero, 300), AudioStep::Idle);
    drive.opened(0);
    assert_eq!(
        drive.step(true, 1, 0, zero, 300),
        AudioStep::Mix { time: Rational::new(0, MASTER_RATE) }
    );
    assert_eq!(drive.step(true, 1, TARGET_QUEUE, zero, 300), AudioStep::Idle);
    drive.opened(3);
    assert_eq!(drive.step(true, 1, 0, zero, 300), AudioStep::Idle);
    assert_eq!(
        drive.step(true, 1, 0, zero, 0),
        AudioStep::Mix { time: Rational::new(u32::MAX, MASTER_RATE) }
    );
    assert_eq!(drive.step(true, 1, 0, Framerate::new(30, 0), 300), AudioStep::Idle);
    assert_eq!(drive.step(false, 1, 0, zero, 300), AudioStep::Close);
}

#[test]
fn playback_opens_mixes_and_closes() {
    let rate = Framerate::fps_30();
    let mut d = AudioDrive::new();
    assert_eq!(d.step(false, 1, 0, rate, 300), AudioStep::Idle);
    assert_eq!(d.step(true, 1, 0, rate, 300), AudioStep::Rebuild);
    d.rebuilt();
    assert_eq!(d.step(true, 1, 0, rate, 300), AudioStep::Open);
    d.opened(15);
    assert_eq!(
        d.step(true, 1, 0, rate, 300),
        AudioStep::Mix { time: Rational::new(24_000, MASTER_RATE) }
    );
    assert_eq!(d.step(true, 1, TARGET_QUEUE, rate, 300), AudioStep::Idle);
    assert_eq!(d.step(true, 0, 0, rate, 300), AudioStep::Idle);
    d.mixed();
    assert_eq!(
        d.step(true, 1, 0, rate, 300),
        AudioStep::Mix { time: Rational::new(24_000 + CHUNK_FRAMES as u32, MASTER_RATE) }
    );
    assert_eq!(d.step(true, 1, 0, rate, 15), AudioStep::Idle);
    assert_eq!(d.step(false, 1, 0, rate, 300), AudioStep::Close);
    d.closed();
    assert_eq!(d.step(false, 1, 0, rate, 300), AudioStep::Idle);
}
