//! The project model: time, curves, layers, compositions, projects.

use felx::model::asset::{Asset, AssetId, AssetKind};
use felx::model::composition::{CompId, Composition};
use felx::model::curve::{sort_keyframes, Curve, CurveSample, InterpKind, Keyframe, Segment};
use felx::model::effect::Effect;
use felx::model::io::{project_dir_of, LoadError, SaveError};
use felx::model::layer::{BlendMode, Layer, LayerId, LayerKind, TrackMatteMode};
use felx::model::mask::{Mask, MaskMode, MaskPath, MaskVertex, PathBlend, Sides};
use felx::model::project::{Project, ValidationError, FORMAT_VERSION};
use felx::model::time::{Frame, Framerate, Rational};
use felx::model::transform::Transform;
use felx::scalar::{Point, Rgba, Scalar};

fn s(x: f32) -> Scalar {
    Scalar::from_bits(x.to_bits())
}

fn f(x: Scalar) -> f32 {
    f32::from_bits(x.bits)
}

fn rgba(r: f32, g: f32, b: f32, a: f32) -> Rgba {
    Rgba { r: s(r), g: s(g), b: s(b), a: s(a) }
}

fn seconds(t: Rational) -> f64 {
    t.num as f64 / t.den as f64
}

fn fps(r: Framerate) -> f64 {
    r.0.num as f64 / r.0.den as f64
}

fn key(num: u32, den: u32, v: f32, interp: InterpKind) -> Keyframe<Scalar> {
    Keyframe { t: Rational::new(num, den), v: s(v), interp }
}

#[test]
fn rational_as_seconds() {
    assert_eq!(seconds(Rational::new(1, 2)), 0.5);
    assert_eq!(seconds(Rational::new(30, 1)), 30.0);
}

#[test]
fn framerate_constants() {
    assert_eq!(fps(Framerate::fps_30()), 30.0);
    assert_eq!(fps(Framerate::fps_24()), 24.0);
    assert_eq!(fps(Framerate::fps_60()), 60.0);
}

#[test]
fn ten_hours_at_60fps_round_trip_is_exact() {
    let frame = Frame(2_160_000);
    let t = frame.to_time(Framerate::fps_60());
    assert_eq!(seconds(t), 36_000.0);
    let back = t.to_frame(Framerate::fps_60());
    assert_eq!(back, frame);
}

#[test]
fn fractional_framerate_round_trip_is_exact() {
    let rate = Framerate::new(24000, 1001);
    let frame = Frame(60_000);
    let t = frame.to_time(rate);
    let back = t.to_frame(rate);
    assert_eq!(back, frame);
}

#[test]
fn frame_zero_is_time_zero() {
    let t = Frame(0).to_time(Framerate::fps_30());
    assert_eq!(seconds(t), 0.0);
}

#[test]
fn frame_to_time_30fps_is_thirtieths() {
    let t = Frame(15).to_time(Framerate::fps_30());
    assert_eq!(t, Rational { num: 15, den: 30 });
    assert_eq!(seconds(t), 0.5);
}

#[test]
fn times_are_ordered_across_timebases() {
    assert!(Rational::new(1, 3).is_before(Rational::new(1, 2)));
    assert!(!Rational::new(1, 2).is_before(Rational::new(15, 30)));
    assert!(Rational::new(1, 2).is_same_instant(Rational::new(15, 30)));
    assert!(!Rational::new(0, 1).is_same_instant(Rational::new(1, 1_000_000_000)));
}

#[test]
fn static_curve_samples_constant() {
    let c = Curve::Static(s(0.5));
    assert_eq!(f(c.sample_at(0)), 0.5);
    assert_eq!(f(c.sample_at(100)), 0.5);
}

#[test]
fn static_curve_default() {
    let c: Curve<Scalar> = Curve::default();
    assert_eq!(f(c.sample_at(0)), 0.0);
}

#[test]
fn curve_segments_follow_the_keyframes() {
    let kfs = vec![
        key(0, 30, 0.0, InterpKind::Linear),
        key(30, 30, 1.0, InterpKind::Hold),
        key(60, 30, 2.0, InterpKind::Linear),
    ];
    let at = |num: u32| felx::model::curve::segment_at(&kfs, Rational::new(num, 30));
    assert_eq!(at(0), Some(Segment::Between { left: 0 }));
    assert_eq!(at(29), Some(Segment::Between { left: 0 }));
    assert_eq!(at(30), Some(Segment::At { index: 1 }));
    assert_eq!(at(59), Some(Segment::At { index: 1 }));
    assert_eq!(at(60), Some(Segment::At { index: 2 }));
    assert_eq!(at(600), Some(Segment::At { index: 2 }));
    let none: Vec<Keyframe<Scalar>> = Vec::new();
    assert_eq!(felx::model::curve::segment_at(&none, Rational::new(1, 1)), None);
    let empty: Curve<Scalar> = Curve::Animated(Vec::new());
    assert_eq!(empty.sample_at_time(Rational::new(1, 1)), CurveSample::Exact(s(0.0)));
}

#[test]
fn sorting_keeps_equal_times_in_place() {
    let kfs = vec![
        key(60, 30, 2.0, InterpKind::Linear),
        key(1, 1, 1.0, InterpKind::Linear),
        key(30, 30, 1.5, InterpKind::Hold),
        key(0, 30, 0.0, InterpKind::Linear),
    ];
    let sorted: Vec<f32> = sort_keyframes(&kfs).iter().map(|k| f(k.v)).collect();
    assert_eq!(sorted, vec![0.0, 1.0, 1.5, 2.0]);
}

#[test]
fn effect_new_is_enabled() {
    let e = Effect::new("cc_toner".to_string());
    assert_eq!(e.id, "cc_toner");
    assert!(e.enabled);
}

#[test]
fn asset_construction() {
    let a = Asset { id: AssetId(1), path: "media/clip.mp4".to_string(), kind: AssetKind::Video };
    assert_eq!(a.id, AssetId(1));
    assert_eq!(a.kind, AssetKind::Video);
}

#[test]
fn add_layer_assigns_unique_ids() {
    let mut c = Composition::new(CompId(1), "main".to_string(), 1920, 1080);
    c.duration_frames = 600;
    let a = c.add_layer("a".to_string(), LayerKind::Null, 0, 100);
    let b = c.add_layer("b".to_string(), LayerKind::Null, 0, 200);
    assert_ne!(a, b);
    assert_eq!(c.layers.len(), 2);
}

#[test]
fn layer_lookup_by_id() {
    let mut c = Composition::new(CompId(1), "main".to_string(), 100, 100);
    c.duration_frames = 60;
    let id = c.add_layer("solo".to_string(), LayerKind::Null, 0, 60);
    assert!(c.layer(id).is_some());
    assert!(c.layer(LayerId(999)).is_none());
}

#[test]
fn convenience_constructors() {
    let mut c = Composition::new(CompId(2), "main".to_string(), 100, 100);
    c.duration_frames = 30;
    let _solid = c.add_solid("bg".to_string(), rgba(0.1, 0.1, 0.1, 1.0));
    let _vid = c.add_video("clip".to_string(), AssetId(7));
    assert_eq!(c.layers.len(), 2);
    assert_eq!(c.layers[0].in_frame, 0);
    assert_eq!(c.layers[0].out_frame, 30);
}

#[test]
fn layers_move_and_go() {
    let mut c = Composition::new(CompId(1), "main".to_string(), 100, 100);
    let a = c.add_layer("a".to_string(), LayerKind::Null, 0, 1);
    let b = c.add_layer("b".to_string(), LayerKind::Null, 0, 1);
    let d = c.add_layer("d".to_string(), LayerKind::Null, 0, 1);
    let order = |c: &Composition| c.layers.iter().map(|l| l.id).collect::<Vec<_>>();
    c.move_layer_up(d);
    assert_eq!(order(&c), vec![a, d, b]);
    c.move_layer_down(d);
    assert_eq!(order(&c), vec![a, b, d]);
    c.move_layer_up(a);
    c.move_layer_down(d);
    assert_eq!(order(&c), vec![a, b, d]);
    c.remove_layer(b);
    c.remove_layer(b);
    assert_eq!(order(&c), vec![a, d]);
    if let Some(l) = c.layer_mut(a) {
        l.in_frame = 7;
    }
    assert_eq!(c.layer(a).unwrap().in_frame, 7);
}

fn layer_with(in_f: u32, out_f: u32, offset: i32, scale: f32) -> Layer {
    Layer {
        id: LayerId(1),
        name: "x".to_string(),
        kind: LayerKind::Null,
        in_frame: in_f,
        out_frame: out_f,
        transform: Transform::default(),
        effects: vec![],
        parent: None,
        blend_mode: BlendMode::default(),
        track_matte: None,
        time_offset_frames: offset,
        time_scale: s(scale),
        masks: vec![],
    }
}

fn source_frame_for(l: &Layer, comp_frame: u32) -> u32 {
    let scaled = (l.local_frame(comp_frame) as f64 * f(l.time_scale) as f64).round() as i64;
    l.source_frame_for(comp_frame, scaled)
}

#[test]
fn layer_duration_is_out_minus_in() {
    let mut l = layer_with(30, 90, 0, 1.0);
    l.name = "test".to_string();
    l.kind = LayerKind::Solid { color: rgba(0.0, 0.0, 0.0, 1.0) };
    assert_eq!(l.duration(), 60);
}

#[test]
fn zero_length_layer_is_valid() {
    let mut l = layer_with(30, 30, 0, 1.0);
    l.name = "marker".to_string();
    assert_eq!(l.duration(), 0);
}

#[test]
fn source_frame_identity_subtracts_in_frame() {
    let l = layer_with(10, 100, 0, 1.0);
    assert_eq!(source_frame_for(&l, 10), 0);
    assert_eq!(source_frame_for(&l, 50), 40);
    assert_eq!(source_frame_for(&l, 5), 0);
}

#[test]
fn source_frame_with_positive_offset() {
    let l = layer_with(0, 100, 5, 1.0);
    assert_eq!(source_frame_for(&l, 0), 5);
    assert_eq!(source_frame_for(&l, 10), 15);
}

#[test]
fn source_frame_with_half_speed() {
    let l = layer_with(0, 100, 0, 0.5);
    assert_eq!(source_frame_for(&l, 0), 0);
    assert_eq!(source_frame_for(&l, 10), 5);
    assert_eq!(source_frame_for(&l, 100), 50);
}

#[test]
fn source_frame_with_double_speed() {
    let l = layer_with(0, 100, 0, 2.0);
    assert_eq!(source_frame_for(&l, 0), 0);
    assert_eq!(source_frame_for(&l, 10), 20);
    assert_eq!(source_frame_for(&l, 50), 100);
}

#[test]
fn source_frame_with_negative_scale_reverses() {
    let l = layer_with(0, 60, 60, -1.0);
    assert_eq!(source_frame_for(&l, 0), 60);
    assert_eq!(source_frame_for(&l, 30), 30);
    assert_eq!(source_frame_for(&l, 60), 0);
}

#[test]
fn blend_modes_have_names_and_indices() {
    let all = BlendMode::all();
    assert_eq!(all.len(), 19);
    assert_eq!(all[0], BlendMode::default());
    assert_eq!(BlendMode::LinearDodge.shader_index(), BlendMode::Add.shader_index());
    assert_eq!(BlendMode::LinearBurn.shader_index(), 12);
    assert_eq!(BlendMode::SoftLight.label(), "Soft Light");
    assert_eq!(TrackMatteMode::LumaInverted.shader_index(), 3);
    assert_eq!(TrackMatteMode::AlphaInverted.label(), "Alpha Inverted");
}

fn rect(x: f32, y: f32, w: f32, h: f32) -> Sides {
    Sides { left: s(x), top: s(y), right: s(x + w), bottom: s(y + h) }
}

fn oval(cx: f32, cy: f32, rx: f32, ry: f32) -> MaskPath {
    let k = 0.552_284_8_f32;
    MaskPath::ellipse(
        Point { x: s(cx), y: s(cy) },
        Sides { left: s(cx - rx), top: s(cy - ry), right: s(cx + rx), bottom: s(cy + ry) },
        Point { x: s(rx * k), y: s(ry * k) },
    )
}

fn xy(p: Point) -> [f32; 2] {
    [f(p.x), f(p.y)]
}

fn lerp(a: &MaskPath, b: &MaskPath, t: f32) -> MaskPath {
    let mix = |p: Scalar, q: Scalar| s(f(p) + (f(q) - f(p)) * t);
    let mix2 = |p: Point, q: Point| Point { x: mix(p.x, q.x), y: mix(p.y, q.y) };
    match a.blend(b, t >= 0.5) {
        PathBlend::Snap(p) => p,
        PathBlend::Pairs(pairs) => MaskPath {
            vertices: pairs
                .iter()
                .map(|(p, q)| MaskVertex {
                    anchor: mix2(p.anchor, q.anchor),
                    in_tan: mix2(p.in_tan, q.in_tan),
                    out_tan: mix2(p.out_tan, q.out_tan),
                })
                .collect(),
        },
    }
}

#[test]
fn rectangle_has_four_corners() {
    let r = MaskPath::rectangle(rect(10.0, 20.0, 100.0, 50.0));
    assert_eq!(r.vertices.len(), 4);
    assert_eq!(xy(r.vertices[0].anchor), [10.0, 20.0]);
    assert_eq!(xy(r.vertices[2].anchor), [110.0, 70.0]);
    assert!(r.vertices.iter().all(|v| xy(v.in_tan) == [0.0, 0.0]));
}

#[test]
fn ellipse_has_four_anchors_with_tangents() {
    let e = oval(50.0, 50.0, 30.0, 20.0);
    assert_eq!(e.vertices.len(), 4);
    assert_eq!(xy(e.vertices[0].anchor), [50.0, 30.0]);
    assert!(xy(e.vertices[0].out_tan)[0] > 0.0);
    assert_eq!(xy(e.vertices[0].out_tan)[1], 0.0);
    assert_eq!(xy(e.vertices[0].in_tan)[0], -xy(e.vertices[0].out_tan)[0]);
}

#[test]
fn path_lerp_interpolates_vertex_anchors() {
    let a = MaskPath::rectangle(rect(0.0, 0.0, 100.0, 100.0));
    let b = MaskPath::rectangle(rect(50.0, 50.0, 100.0, 100.0));
    let mid = lerp(&a, &b, 0.5);
    assert_eq!(xy(mid.vertices[0].anchor), [25.0, 25.0]);
}

#[test]
fn path_lerp_with_mismatched_vertex_count_snaps() {
    let a = MaskPath { vertices: vec![MaskVertex::corner(s(0.0), s(0.0)); 3] };
    let b = MaskPath { vertices: vec![MaskVertex::corner(s(10.0), s(10.0)); 4] };
    assert_eq!(lerp(&a, &b, 0.2).vertices.len(), 3);
    assert_eq!(lerp(&a, &b, 0.8).vertices.len(), 4);
}

#[test]
fn a_new_mask_adds_at_full_opacity() {
    let m = Mask::rectangle("box".to_string(), rect(0.0, 0.0, 10.0, 10.0));
    assert_eq!(m.name, "box");
    assert_eq!(m.mode, MaskMode::Add);
    assert_eq!(f(m.opacity), 1.0);
    assert_eq!(f(m.feather), 0.0);
    assert_eq!(MaskMode::all().map(|m| m.label()), ["Add", "Subtract", "Intersect", "Difference"]);
}

#[test]
fn default_is_identity() {
    let t = Transform::default();
    assert_eq!(xy(t.position.sample_at(0)), [0.0, 0.0]);
    assert_eq!(xy(t.anchor.sample_at(0)), [0.0, 0.0]);
    assert_eq!(xy(t.scale.sample_at(0)), [1.0, 1.0]);
    assert_eq!(f(t.rotation.sample_at(0)), 0.0);
    assert_eq!(f(t.opacity.sample_at(0)), 1.0);
}

fn one_layer_project() -> Project {
    let mut p = Project::new();
    let asset = p.add_asset("media/clip.mp4".to_string(), AssetKind::Video);
    let comp = p.add_composition("main".to_string(), 1920, 1080);
    let c = p.composition_mut(comp).unwrap();
    c.framerate = Framerate::fps_30();
    c.duration_frames = 300;
    let layer = c.add_video("clip".to_string(), asset);
    c.push_effect(layer, Effect::new("cc_toner".to_string()));
    p
}

#[test]
fn project_construction() {
    let p = one_layer_project();
    assert_eq!(p.compositions.len(), 1);
    assert_eq!(p.assets.len(), 1);
    assert_eq!(p.compositions[0].layers.len(), 1);
    assert_eq!(p.compositions[0].layers[0].effects.len(), 1);
}

#[test]
fn valid_project_validates_clean() {
    assert!(one_layer_project().validate().is_ok());
}

#[test]
fn layer_out_beyond_comp_duration_is_an_error() {
    let mut p = Project::new();
    let asset = p.add_asset("media/clip.mp4".to_string(), AssetKind::Video);
    let comp = p.add_composition("main".to_string(), 100, 100);
    let c = p.composition_mut(comp).unwrap();
    c.duration_frames = 100;
    c.add_layer("long".to_string(), LayerKind::Video { asset }, 0, 500);
    let errors = p.validate().unwrap_err();
    assert!(matches!(errors[0], ValidationError::LayerOutBeyondCompDuration { .. }));
}

#[test]
fn layer_in_after_out_is_an_error() {
    let mut p = Project::new();
    let comp = p.add_composition("main".to_string(), 100, 100);
    let c = p.composition_mut(comp).unwrap();
    c.duration_frames = 100;
    c.add_layer("backwards".to_string(), LayerKind::Null, 80, 20);
    let errors = p.validate().unwrap_err();
    assert!(matches!(errors[0], ValidationError::LayerInAfterOut { .. }));
}

#[test]
fn unknown_asset_is_an_error() {
    let mut p = Project::new();
    let comp = p.add_composition("main".to_string(), 100, 100);
    let c = p.composition_mut(comp).unwrap();
    c.duration_frames = 100;
    c.add_layer("ghost".to_string(), LayerKind::Video { asset: AssetId(999) }, 0, 100);
    let errors = p.validate().unwrap_err();
    assert!(matches!(errors[0], ValidationError::UnknownAsset { .. }));
}

#[test]
fn composition_self_reference_is_an_error() {
    let mut p = Project::new();
    let comp = p.add_composition("loopy".to_string(), 100, 100);
    let c = p.composition_mut(comp).unwrap();
    c.duration_frames = 100;
    c.add_layer("self".to_string(), LayerKind::Composition { comp }, 0, 100);
    let errors = p.validate().unwrap_err();
    assert!(errors.iter().any(|e| matches!(e, ValidationError::CompositionSelfReference { .. })));
}

#[test]
fn unknown_composition_is_an_error() {
    let mut p = Project::new();
    let comp = p.add_composition("main".to_string(), 100, 100);
    let c = p.composition_mut(comp).unwrap();
    c.duration_frames = 100;
    let layer = c.add_layer("far".to_string(), LayerKind::Composition { comp: CompId(77) }, 0, 100);
    let errors = p.validate().unwrap_err();
    assert_eq!(
        errors,
        vec![ValidationError::UnknownComposition { comp, layer, target: CompId(77) }]
    );
}

#[test]
fn parent_cycles_are_errors() {
    let mut p = Project::new();
    let comp = p.add_composition("main".to_string(), 100, 100);
    let c = p.composition_mut(comp).unwrap();
    c.duration_frames = 10;
    let a = c.add_layer("a".to_string(), LayerKind::Null, 0, 10);
    let b = c.add_layer("b".to_string(), LayerKind::Null, 0, 10);
    let d = c.add_layer("d".to_string(), LayerKind::Null, 0, 10);
    c.layer_mut(a).unwrap().parent = Some(b);
    c.layer_mut(b).unwrap().parent = Some(a);
    c.layer_mut(d).unwrap().parent = Some(a);
    let errors = p.validate().unwrap_err();
    assert_eq!(
        errors,
        vec![
            ValidationError::ParentCycle { comp, layer: a },
            ValidationError::ParentCycle { comp, layer: b },
        ]
    );
}

#[test]
fn empty_project_validates() {
    let p = Project::new();
    assert!(p.validate().is_ok());
}

fn three_layer_project(asset_path: &str) -> Project {
    let mut p = Project::new();
    let asset = p.add_asset(asset_path.to_string(), AssetKind::Video);
    let comp_id = p.add_composition("main".to_string(), 1920, 1080);
    let comp = p.composition_mut(comp_id).unwrap();
    comp.framerate = Framerate::fps_30();
    comp.duration_frames = 300;
    let _video = comp.add_video("clip".to_string(), asset);
    let _solid = comp.add_solid("bg".to_string(), rgba(0.05, 0.05, 0.08, 1.0));
    let adj = comp.add_layer("color grade".to_string(), LayerKind::Adjustment, 0, 300);
    comp.push_effect(adj, Effect::new("cc_toner".to_string()));
    p
}

fn saved_and_loaded(p: Project, path: &str) -> Project {
    let assets = p.stored_assets(path);
    let stored = Project { assets, ..p };
    stored.finish_load(path).unwrap()
}

#[test]
fn round_trip_preserves_project() {
    let original = three_layer_project("/tmp/round-trip/media.mp4");
    let loaded =
        saved_and_loaded(three_layer_project("/tmp/round-trip/media.mp4"), "/tmp/round-trip/test.felx");
    assert_eq!(original, loaded);
}

#[test]
fn asset_path_under_project_dir_is_stored_relative() {
    let project = three_layer_project("/tmp/relative/nested/clip.mp4");
    let stored = project.stored_assets("/tmp/relative/proj.felx");
    assert_eq!(stored[0].path, "nested/clip.mp4");
    let loaded = saved_and_loaded(project, "/tmp/relative/proj.felx");
    assert_eq!(loaded.assets[0].path, "/tmp/relative/nested/clip.mp4");
}

#[test]
fn asset_path_outside_project_dir_stays_absolute() {
    let project = three_layer_project("/tmp/asset/clip.mp4");
    let stored = project.stored_assets("/tmp/outside/proj.felx");
    assert_eq!(stored[0].path, "/tmp/asset/clip.mp4");
    let loaded = saved_and_loaded(project, "/tmp/outside/proj.felx");
    assert_eq!(loaded.assets[0].path, "/tmp/asset/clip.mp4");
}

#[test]
fn unknown_format_version_fails_to_load() {
    let mut p = Project::new();
    p.format_version = 999;
    let err = p.finish_load("/tmp/future/future.felx").unwrap_err();
    assert!(matches!(err, LoadError::UnsupportedFormatVersion { found: 999, .. }));
    assert_eq!(err.message(), "unsupported project format version 999 (max supported: 1)");
}

#[test]
fn loaded_project_validates() {
    let original = three_layer_project("/tmp/validate/media.mp4");
    assert!(original.validate().is_ok());
    let loaded = saved_and_loaded(original, "/tmp/validate/p.felx");
    assert!(loaded.validate().is_ok());
}

#[test]
fn loading_works_out_the_next_ids() {
    let mut p = three_layer_project("/tmp/x/media.mp4");
    p.next_asset_id = 0;
    p.next_comp_id = 0;
    p.compositions[0].next_layer_id = 0;
    let mut loaded = p.finish_load("/tmp/x/p.felx").unwrap();
    assert_eq!(loaded.next_asset_id, 2);
    assert_eq!(loaded.next_comp_id, 2);
    assert_eq!(loaded.compositions[0].next_layer_id, 4);
    let before = loaded.compositions[0].next_layer_id;
    loaded.fixup_after_load();
    assert_eq!(loaded.compositions[0].next_layer_id, before);
}

#[test]
fn io_errors_have_texts() {
    assert_eq!(LoadError::Io("gone".to_string()).message(), "io: gone");
    assert_eq!(LoadError::Parse("1:2".to_string()).message(), "parse: 1:2");
    assert_eq!(SaveError::Io("full".to_string()).message(), "io: full");
    assert_eq!(SaveError::Serialize("odd".to_string()).message(), "serialize: odd");
    assert_eq!(project_dir_of("/a/b/p.felx"), "/a/b");
    assert_eq!(FORMAT_VERSION, 1);
}
