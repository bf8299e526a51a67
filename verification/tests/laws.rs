//! What holds across operations, on concrete values.

use felx::bytes::{push_le, read_le};
use felx::cli::parse_render;
use felx::media::av_sync::{decide, AudioClock, SyncDecision, SyncTolerance};
use felx::media::decode::{next_candidate, HwaccelKind, Platform};
use felx::media::library::{AssetLibrary, AssetMetadata, FileStatus};
use felx::media::mixer::{window_taps, AudioSource};
use felx::media::samples::{AudioEvent, AudioReader, AudioStep, DecodedAudio};
use felx::media::wav::{write_wav, WavSamples};
use felx::media::waveform::compute_waveform;
use felx::model::asset::{AssetId, AssetKind};
use felx::model::composition::{CompId, Composition};
use felx::model::curve::{Curve, CurveSample, InterpKind, Keyframe};
use felx::model::layer::{BlendMode, LayerKind};
use felx::model::mask::{MaskPath, Sides};
use felx::model::project::Project;
use felx::model::time::{Frame, Framerate, Rational};
use felx::params::manifest::{
    EffectManifest, EnumVariant, ParamDecl, ParamKind, PassKind, WorkingSpace,
};
use felx::params::values::ParamValues;
use felx::paths::{
    extension_of, file_name_of, join_path, parent_of, set_file_name, strip_prefix_of,
};
use felx::scalar::{Point, Scalar};
use felx::studio::audio::{audio_tracks, layer_source, RingBuffer};
use felx::studio::autosave::autosave_path;
use felx::studio::curve_edit::set_keyframe_at;
use felx::studio::editor::{Editor, RegionRect};
use felx::studio::export::{ensure_extension, ExportFormat};
use felx::studio::graph::{bulk_delete, AnimatedRow, GraphKey, GraphSelection};
use felx::studio::layer_panel::{edit_composition, LayerAction};
use felx::studio::playback::Playhead;
use felx::studio::registry::{ManifestRegistry, PresetRegistry};
use felx::studio::render_queue::{OutputKind, RenderQueue};
use felx::studio::settings::{find_adapter, AdapterIdentity};
use felx::text::{decimal_text, parse_unsigned, str_less};
use std::time::SystemTime;

fn s(x: f32) -> Scalar {
    Scalar::from_bits(x.to_bits())
}

fn f(x: Scalar) -> f32 {
    f32::from_bits(x.bits)
}

fn ids(c: &Composition) -> Vec<u32> {
    c.layers.iter().map(|l| l.id.0).collect()
}

fn composition() -> Composition {
    let mut c = Composition::new(CompId(1), "main".to_string(), 64, 36);
    c.duration_frames = 100;
    for i in 0..3 {
        c.add_layer(format!("layer {i}"), LayerKind::Null, 0, 100);
    }
    c
}

#[test]
fn numbers_survive_being_written() {
    for n in [0, 9, 10, 1_000_003, u64::MAX] {
        assert_eq!(parse_unsigned(&decimal_text(n), u64::MAX), Some(n));
        let mut bytes = Vec::new();
        push_le(&mut bytes, n, 8);
        assert_eq!(read_le(&bytes, 0, 8), n);
    }
}

#[test]
fn texts_are_ordered_totally() {
    let sorted = ["", "a", "a.b", "ab", "b"];
    for (i, a) in sorted.iter().enumerate() {
        for (j, b) in sorted.iter().enumerate() {
            assert_eq!(str_less(a, b), i < j);
        }
    }
}

#[test]
fn paths_are_put_together_again() {
    let full = join_path("/home/u", "media/clip.mp4");
    assert_eq!(strip_prefix_of(&full, "/home/u").as_deref(), Some("media/clip.mp4"));
    let renamed = set_file_name("/home/u/a.txt", "b.txt");
    assert_eq!(file_name_of(&renamed).as_deref(), Some("b.txt"));
    assert_eq!(parent_of(&renamed), parent_of("/home/u/a.txt"));
    assert_eq!(extension_of(&set_file_name("/x/y", "z.mov")).as_deref(), Some("mov"));
    let saved = autosave_path("/home/u/p.felx");
    assert_eq!(parent_of(&saved), parent_of("/home/u/p.felx"));
    let (done, changed) = ensure_extension(ExportFormat::Gif, "/o/anim".to_string());
    assert!(changed);
    assert_eq!(ensure_extension(ExportFormat::Gif, done.clone()), (done, false));
}

#[test]
fn negating_twice_and_clamping() {
    for x in [0.0, -1.5, f32::INFINITY, 1e-40] {
        assert_eq!(s(x).neg().neg(), s(x));
        let c = s(x).clamp_to(s(-1.0), s(1.0));
        assert!(!c.is_less(s(-1.0)) && !s(1.0).is_less(c));
    }
}

#[test]
fn frames_come_back_from_their_times() {
    let ntsc = Framerate::new(30_000, 1001);
    for n in [0, 1, 29, 12_345] {
        assert_eq!(Frame(n).to_time(ntsc).to_frame(ntsc), Frame(n));
    }
    let (a, b) = (Rational::new(1, 3), Rational::new(2, 5));
    assert!(a.is_before(b) && !b.is_before(a));
}

#[test]
fn a_set_value_is_the_value_there() {
    let key = |n: u32, v: f32| Keyframe {
        t: Rational::new(n, 30),
        v: s(v),
        interp: InterpKind::Linear,
    };
    let c = Curve::Animated(vec![key(0, 0.0), key(60, 1.0)]);
    let t = Rational::new(20, 30);
    let after = set_keyframe_at(&c, t, s(0.25));
    match after.sample_at_time(t) {
        CurveSample::Exact(v) => assert_eq!(f(v), 0.25),
        CurveSample::Blend { from, .. } => {
            assert_eq!((from.t, f(from.v)), (t, 0.25));
        }
    }
}

#[test]
fn deleting_leaves_the_other_keyframes() {
    let key = |n: u32| Keyframe {
        t: Rational::new(n, 30),
        v: s(n as f32),
        interp: InterpKind::Hold,
    };
    let rows = vec![AnimatedRow {
        effect_index: 0,
        effect_label: String::new(),
        param_id: "a".to_string(),
        param_label: String::new(),
        min: s(0.0),
        max: s(1.0),
        curve: Curve::Animated(vec![key(0), key(1), key(2)]),
    }];
    let mut sel = GraphSelection::default();
    let k = |index: usize| GraphKey { effect_index: 0, param_id: "a".to_string(), index };
    sel.click(k(0), true);
    sel.click(k(2), true);
    assert_eq!(bulk_delete(&sel, &rows).len(), 1);
    sel.click(k(0), true);
    sel.click(k(2), true);
    assert!(sel.keys().is_empty());
    assert!(bulk_delete(&sel, &rows).is_empty());
}

#[test]
fn ellipses_are_smooth_at_their_anchors() {
    let sides = Sides { left: s(0.0), top: s(0.0), right: s(2.0), bottom: s(4.0) };
    let centre = Point { x: s(1.0), y: s(2.0) };
    let path = MaskPath::ellipse(centre, sides, Point { x: s(0.5), y: s(1.0) });
    for v in &path.vertices {
        assert_eq!(f(v.in_tan.x), -f(v.out_tan.x));
        assert_eq!(f(v.in_tan.y), -f(v.out_tan.y));
    }
}

#[test]
fn moving_layers_back_and_forth() {
    let mut c = composition();
    let before = ids(&c);
    let second = c.layers[1].id;
    c.move_layer_up(second);
    assert_eq!(ids(&c), [2, 1, 3]);
    c.move_layer_down(second);
    assert_eq!(ids(&c), before);
}

#[test]
fn new_layers_get_new_ids() {
    let mut c = composition();
    c.next_layer_id = 0;
    c.fixup_after_load();
    assert_eq!(c.next_layer_id, 4);
    let id = edit_composition(&mut c, LayerAction::AddSolid).unwrap();
    assert_eq!(id.0, 4);
    assert_eq!(ids(&c), [1, 2, 3, 4]);
    edit_composition(&mut c, LayerAction::SetCompDurationFrames(10));
    assert!(c.layers.iter().all(|l| l.out_frame <= 10));
}

#[test]
fn fixing_up_twice_changes_nothing_more() {
    let mut p = Project::new();
    p.add_asset("/a.mp4".to_string(), AssetKind::Video);
    p.add_composition("main".to_string(), 1, 1);
    p.next_asset_id = 0;
    p.next_comp_id = 0;
    p.fixup_after_load();
    let once = (p.next_asset_id, p.next_comp_id);
    p.fixup_after_load();
    assert_eq!((p.next_asset_id, p.next_comp_id), once);
    assert_eq!(once, (2, 2));
}

#[test]
fn every_blend_mode_is_listed_once() {
    let all = BlendMode::all();
    for (i, m) in all.iter().enumerate() {
        assert_eq!(all.iter().position(|x| x == m), Some(i));
    }
}

#[test]
fn a_reset_clock_reports_its_frame_and_snaps_settle() {
    let ntsc = Framerate::new(24_000, 1001);
    let mut clock = AudioClock::new(48_000);
    clock.reset_to(500, ntsc, 48_000);
    assert_eq!(clock.frame_at(ntsc), 500);
    match decide(7, &clock, ntsc, SyncTolerance::default()) {
        SyncDecision::SnapTo(frame) => {
            let again = decide(frame, &clock, ntsc, SyncTolerance::default());
            assert_eq!(again, SyncDecision::Hold);
        }
        SyncDecision::Hold => panic!("the clock is far away"),
    }
}

#[test]
fn every_spelling_of_a_path_is_one_entry() {
    let mut lib = AssetLibrary::new();
    let file = |size_bytes: u64| {
        FileStatus::File(AssetMetadata { size_bytes, modified_at: SystemTime::UNIX_EPOCH })
    };
    lib.refresh("/m/a.mp4", file(1)).unwrap();
    lib.refresh("/m/./a.mp4", file(2)).unwrap();
    assert_eq!(lib.len(), 1);
    assert_eq!(lib.metadata("/m//a.mp4").unwrap().size_bytes, 2);
}

fn source(rate: u32, frames: usize) -> AudioSource {
    AudioSource {
        sample_rate: rate,
        channels: 1,
        pcm: vec![s(1.0); frames],
        gain: Curve::Static(s(1.0)),
        pan: Curve::Static(s(0.0)),
    }
}

#[test]
fn windows_read_straight_and_end_for_good() {
    let taps = window_taps(&source(48_000, 3), Rational::new(0, 1), 48_000, 5);
    let read: Vec<Option<usize>> = taps.iter().map(|t| t.map(|t| t.i0)).collect();
    assert_eq!(read, [Some(0), Some(1), Some(2), None, None]);
    assert!(taps.iter().flatten().all(|t| t.rest == 0));
    let taps = window_taps(&source(24_000, 2), Rational::new(0, 1), 48_000, 4);
    assert_eq!(taps.iter().flatten().map(|t| t.rest).collect::<Vec<_>>(), [0, 24_000, 0, 24_000]);
}

#[test]
fn only_sources_with_gain_and_samples_are_heard() {
    let one = source(48_000, 1);
    assert_eq!(one.levels_at(s(0.5), s(-3.0)), Some((s(0.5), s(-1.0))));
    assert_eq!(one.levels_at(s(2.0), s(0.25)), Some((s(2.0), s(0.25))));
    assert_eq!(one.levels_at(s(-0.5), s(0.0)), None);
    assert_eq!(one.levels_at(s(-0.0), s(0.0)), None);
    assert_eq!(one.levels_at(s(f32::NAN), s(0.0)), None);
    assert_eq!(source(48_000, 0).levels_at(s(1.0), s(0.0)), None);
}

#[test]
fn sound_is_read_to_the_end() {
    // Two packets of the stream with one frame each, one of another stream.
    let mut packets = vec![AudioEvent::OwnPacket, AudioEvent::OtherPacket, AudioEvent::OwnPacket]
        .into_iter();
    let mut held = 0;
    let mut appended = 0;
    let mut reader = AudioReader::new();
    let mut event = AudioEvent::Start;
    loop {
        event = match reader.step(event) {
            AudioStep::ReadPacket => packets.next().unwrap_or(AudioEvent::EndOfFile),
            AudioStep::SendPacket => {
                held += 1;
                AudioEvent::Taken
            }
            AudioStep::SendEnd => AudioEvent::Taken,
            AudioStep::Receive if held > 0 => {
                held -= 1;
                AudioEvent::FrameReady
            }
            AudioStep::Receive => AudioEvent::NoFrame,
            AudioStep::Append => {
                appended += 1;
                AudioEvent::Appended
            }
            AudioStep::Finish => break,
            AudioStep::Fail => panic!("nothing failed"),
        };
    }
    assert!(reader.ended);
    assert_eq!(appended, 2);
    for failure in [AudioEvent::ReadFailed, AudioEvent::Refused, AudioEvent::DecodeFailed] {
        assert_eq!(AudioReader::new().step(failure), AudioStep::Fail);
    }
}

#[test]
fn wav_headers_and_samples_read_back() {
    let bytes = write_wav(&WavSamples::Pcm16(vec![-2, 300]), 8_000, 1);
    assert_eq!(bytes.len(), 44 + 4);
    assert_eq!(read_le(&bytes, 44, 2) as u16 as i16, -2);
    assert_eq!(read_le(&bytes, 46, 2) as u16 as i16, 300);
    let bytes = write_wav(&WavSamples::Pcm24(vec![-3, 8_388_607]), 8_000, 1);
    assert_eq!(read_le(&bytes, 44, 3), 0x00ff_fffd);
    assert_eq!(read_le(&bytes, 47, 3), 8_388_607);
    let bytes = write_wav(&WavSamples::Float32(vec![s(0.5)]), 8_000, 1);
    assert_eq!(read_le(&bytes, 44, 4) as u32, s(0.5).bits);
}

#[test]
fn every_sample_falls_into_its_window() {
    let mono: Vec<Scalar> = (0..10).map(|i| s(i as f32)).collect();
    let bins = compute_waveform(&mono, 4).bins;
    let spans: Vec<(f32, f32)> = bins.iter().map(|b| (f(b.min), f(b.max))).collect();
    assert_eq!(spans, [(0.0, 2.0), (3.0, 5.0), (6.0, 8.0), (9.0, 9.0)]);
}

#[test]
fn candidates_are_always_devices() {
    for platform in [Platform::Linux, Platform::MacOs, Platform::Windows, Platform::Other] {
        let mut failed = 0;
        while let Some(kind) = next_candidate(HwaccelKind::Auto, platform, failed) {
            assert!(kind != HwaccelKind::Auto && kind != HwaccelKind::Software);
            failed += 1;
        }
    }
}

#[test]
fn drains_add_up_to_one() {
    let all: Vec<Scalar> = (0..6).map(|i| s(i as f32)).collect();
    let (mut a, mut b) = (RingBuffer::default(), RingBuffer::default());
    a.enqueue(&all);
    b.enqueue(&all);
    let mut whole = [s(9.0); 5];
    a.drain_into(&mut whole);
    let (mut head, mut tail) = ([s(9.0); 2], [s(9.0); 3]);
    b.drain_into(&mut head);
    b.drain_into(&mut tail);
    assert_eq!([&head[..], &tail[..]].concat(), whole);
    assert_eq!(a, b);
}

#[test]
fn audio_layers_name_their_files() {
    let mut p = Project::new();
    let sound = p.add_asset("/m/a.wav".to_string(), AssetKind::Audio);
    let comp = p.add_composition("main".to_string(), 64, 36);
    let c = p.composition_mut(comp).unwrap();
    c.add_layer("picture".to_string(), LayerKind::Null, 0, 9);
    c.add_layer("sound".to_string(), LayerKind::Audio { asset: sound }, 3, 9);
    c.add_layer("lost".to_string(), LayerKind::Audio { asset: AssetId(77) }, 4, 9);
    let tracks = audio_tracks(&p, comp);
    assert_eq!(tracks.len(), 1);
    assert_eq!((tracks[0].path.as_str(), tracks[0].in_frame), ("/m/a.wav", 3));
    assert!(audio_tracks(&p, CompId(9)).is_empty());
    let audio = DecodedAudio { sample_rate: 48_000, channels: 1, pcm: vec![s(1.0)] };
    assert_eq!(layer_source(&audio, 3, Framerate::fps_30()).pcm.len(), 4_801);
}

#[test]
fn stepping_forward_and_back_returns() {
    let mut p = Playhead::new(Framerate::fps_24(), 5);
    for frame in 0..5 {
        p.seek(frame);
        p.step_forward();
        p.step_backward();
        assert_eq!(p.current_frame(), frame);
        assert!(p.current_frame() < p.duration_frames());
    }
}

#[test]
fn short_ticks_add_up_to_a_long_one() {
    let (mut a, mut b) =
        (Playhead::new(Framerate::fps_30(), 50), Playhead::new(Framerate::fps_30(), 50));
    a.play();
    b.play();
    a.tick_by(90_000_000);
    for _ in 0..9 {
        b.tick_by(10_000_000);
    }
    assert_eq!(a.current_frame(), b.current_frame());
    assert_eq!(a.current_frame(), 2);
}

#[test]
fn queue_moves_keep_every_entry() {
    let mut q = RenderQueue::new();
    let add = |q: &mut RenderQueue| {
        q.enqueue(CompId(1), "c".to_string(), OutputKind::Wav, "c".to_string(), 1)
    };
    let (a, b, c) = (add(&mut q), add(&mut q), add(&mut q));
    q.move_up(c);
    q.move_down(a);
    let mut now: Vec<u64> = q.entries().iter().map(|e| e.id).collect();
    assert_eq!(now, [c, a, b]);
    now.sort();
    assert_eq!(now, [a, b, c]);
    q.pause(b);
    q.resume(b);
    assert_eq!(q.next_pending().map(|e| e.id), Some(c));
}

#[test]
fn queue_ids_stay_unique_and_moves_are_undone() {
    let mut q = RenderQueue::new();
    for name in ["a", "b", "c"] {
        q.enqueue(CompId(1), name.to_string(), OutputKind::Wav, name.to_string(), 4);
    }
    let order = |q: &RenderQueue| q.entries().iter().map(|e| e.id).collect::<Vec<u64>>();
    assert_eq!(order(&q), [0, 1, 2]);
    q.move_up(1);
    assert_eq!(order(&q), [1, 0, 2]);
    q.move_down(1);
    assert_eq!(order(&q), [0, 1, 2]);
    q.move_down(1);
    q.move_up(1);
    assert_eq!(order(&q), [0, 1, 2]);
    // The first entry does not move up, so moving it down is not undone.
    q.move_up(0);
    q.move_down(0);
    assert_eq!(order(&q), [1, 0, 2]);
    q.cancel(0);
    q.pause(1);
    q.resume(1);
    q.mark_running(1);
    q.record_progress(1, 2);
    q.mark_done(1);
    q.mark_failed(2, "no".to_string());
    let mut ids = order(&q);
    ids.sort();
    assert_eq!(ids, [0, 1, 2]);
}

#[test]
fn fresh_values_are_the_declared_defaults() {
    let decl = |id: &str, kind: ParamKind| ParamDecl {
        id: id.to_string(),
        display_name: String::new(),
        kind,
    };
    let pick = |default: &str, ids: &[&str]| ParamKind::Enum {
        variants: ids
            .iter()
            .map(|id| EnumVariant { id: id.to_string(), display_name: String::new() })
            .collect(),
        default: default.to_string(),
    };
    let manifest = EffectManifest {
        id: "m".to_string(),
        display_name: String::new(),
        category: String::new(),
        working_space: WorkingSpace::default(),
        pass: PassKind::default(),
        parameters: vec![
            decl("on", ParamKind::Bool { default: true }),
            decl(
                "plain",
                ParamKind::Group {
                    parameters: vec![
                        decl("on", ParamKind::Bool { default: false }),
                        decl("kind", pick("other", &["first", "second"])),
                    ],
                },
            ),
            decl(
                "extra",
                ParamKind::OptionalGroup {
                    default_enabled: true,
                    parameters: vec![decl("none", pick("other", &[]))],
                },
            ),
        ],
    };
    assert!(manifest.validate().is_ok());
    let values = ParamValues::from_manifest(&manifest);
    let stored: Vec<&str> = values.iter().iter().map(|(id, _)| id.as_str()).collect();
    assert_eq!(stored, ["extra", "extra.none", "on", "plain.kind", "plain.on"]);
    let mut declared = manifest.ids();
    declared.retain(|id| id != "plain");
    declared.sort();
    assert_eq!(stored, declared);
    assert_eq!(values.bool("on"), Some(true));
    assert_eq!(values.bool("plain.on"), Some(false));
    assert_eq!(values.enum_str("plain.kind"), Some("first"));
    assert_eq!(values.group_enabled("extra"), Some(true));
    assert_eq!(values.enum_str("extra.none"), Some(""));
}

#[test]
fn regions_are_upright_whatever_the_corners() {
    let p = |x: f32, y: f32| Point { x: s(x), y: s(y) };
    let a = RegionRect::from_corners(p(0.9, 0.1), p(0.2, 0.8));
    let b = RegionRect::from_corners(p(0.2, 0.8), p(0.9, 0.1));
    assert_eq!(a, b);
    assert!(f(a.u_min) <= f(a.u_max) && f(a.v_min) <= f(a.v_max));
}

#[test]
fn an_import_is_selected_and_valid() {
    let mut e = Editor::new(ManifestRegistry::new(), PresetRegistry::default());
    e.complete_import("/m/still.png".to_string(), AssetKind::Image, false);
    let id = e.selected_layer.unwrap();
    let c = e.project.composition(e.comp_id).unwrap();
    assert!(matches!(c.layer(id).unwrap().kind, LayerKind::Image { .. }));
    assert!(e.project.validate().is_ok());
}

#[test]
fn the_last_of_two_flags_counts() {
    let words = |t: &str| t.split(' ').map(|w| w.to_string()).collect::<Vec<String>>();
    let twice = parse_render(&words("p --out a --out b --format gif")).unwrap();
    let once = parse_render(&words("p --out b --format gif")).unwrap();
    assert_eq!(twice.out_path, once.out_path);
}

#[test]
fn adapters_are_found_again() {
    let id = |name: &str, device: u32| AdapterIdentity {
        name: name.to_string(),
        vendor: 1,
        device,
        backend: "Vulkan".to_string(),
    };
    let all = vec![id("A", 1), id("A", 2), id("B", 3)];
    assert_eq!(find_adapter(&all, &id("A", 2)), Some(1));
    assert_eq!(find_adapter(&all, &id("C", 9)), Some(0));
    assert_eq!(find_adapter(&Vec::new(), &id("A", 1)), None);
}
