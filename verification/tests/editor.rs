//! The editor and its panels.

use felx::model::asset::AssetKind;
use felx::model::composition::CompId;
use felx::model::curve::{Curve, CurveSample, InterpKind, Keyframe};
use felx::model::layer::{LayerId, LayerKind};
use felx::model::mask::{MaskMode, Sides};
use felx::model::project::Project;
use felx::model::time::{Framerate, Rational};
use felx::params::manifest::{
    EffectManifest, EnumVariant, FloatRange, IntRange, ParamDecl, ParamKind, PassKind,
    WorkingSpace,
};
use felx::params::preset::{preset_effect, EffectPreset};
use felx::params::values::{ParamValue, ParamValues};
use felx::scalar::{Point, Scalar};
use felx::studio::curve_edit::{apply_curve_action, set_keyframe_at, CurveAction};
use felx::studio::editor::{
    AppInitError, CacheReset, Editor, FileTask, PendingFileKind, PreviewScale, RegionRect,
    TransportAction,
};
use felx::studio::effects_panel::{
    chosen_value, controls, effect_heading, no_manifest_text, slider_value, stopwatch_value,
    ControlKind, EffectsAction,
};
use felx::studio::export::{ExportFormat, ExportProgress};
use felx::studio::files::{pick_filter, pick_title, picks_for_writing};
use felx::studio::graph::{
    bulk_delete, collect_animated_rows, delete_selected, interp_for_key, row_events,
    set_selected_interp, strip_events, AnimatedRow, GraphKey, GraphPoint, GraphSelection,
    MenuChoice, RowInput, StripChoice, StripInput,
};
use felx::studio::layer_panel::{follows_time, kind_glyph, layer_rows, row_click, LayerAction};
use felx::studio::mask_panel::{MaskAction, MaskShapes, PenState};
use felx::studio::registry::{
    builtin_effects, builtin_presets, documented_effects, help_path, manifest_path, preset_path,
    ManifestRegistry, PresetRegistry,
};
use felx::studio::viewer::{reloads, ViewerInput, ViewerPointer};

fn s(x: f32) -> Scalar {
    Scalar::from_bits(x.to_bits())
}

fn f(x: Scalar) -> f32 {
    f32::from_bits(x.bits)
}

fn point(x: f32, y: f32) -> Point {
    Point { x: s(x), y: s(y) }
}

fn key(num: u32, v: f32) -> Keyframe<Scalar> {
    Keyframe { t: Rational::new(num, 30), v: s(v), interp: InterpKind::Linear }
}

fn keyframes(c: Curve<Scalar>) -> Vec<Keyframe<Scalar>> {
    match c {
        Curve::Animated(k) => k,
        Curve::Static(_) => panic!("expected keyframes"),
    }
}

fn decl(id: &str, kind: ParamKind) -> ParamDecl {
    ParamDecl { id: id.to_string(), display_name: id.to_uppercase(), kind }
}

fn float(default: f32) -> ParamKind {
    ParamKind::Float { default: s(default), range: FloatRange { min: s(0.0), max: s(4.0) } }
}

fn manifest(id: &str, parameters: Vec<ParamDecl>) -> EffectManifest {
    EffectManifest {
        id: id.to_string(),
        display_name: format!("{id} effect"),
        category: "Color".to_string(),
        working_space: WorkingSpace::Linear,
        pass: PassKind::Gpu,
        parameters,
    }
}

fn editor() -> Editor {
    let mut manifests = ManifestRegistry::new();
    manifests.insert(manifest("gain", vec![decl("gain", float(1.0))]));
    let presets = PresetRegistry {
        presets: vec![EffectPreset {
            name: "Look".to_string(),
            description: String::new(),
            effects: vec![
                preset_effect("gain".to_string(), &[("gain", ParamValue::Float(s(0.5)))]),
                preset_effect("unknown".to_string(), &[("x", ParamValue::Bool(true))]),
            ],
        }],
    };
    Editor::new(manifests, presets)
}

fn shapes() -> MaskShapes {
    let sides = Sides { left: s(1.0), top: s(2.0), right: s(3.0), bottom: s(4.0) };
    MaskShapes { rectangle: sides, centre: point(2.0, 3.0), oval: sides, handles: point(0.5, 0.5) }
}

#[test]
fn set_keyframe_replaces_value_at_existing_time() {
    let c = Curve::Animated(vec![key(0, 0.0), key(60, 1.0)]);
    let kfs = keyframes(set_keyframe_at(&c, Rational::new(0, 30), s(0.5)));
    assert_eq!(kfs.len(), 2);
    assert_eq!(f(kfs[0].v), 0.5);
}

#[test]
fn set_keyframe_inserts_new_time_in_sorted_order() {
    let c = Curve::Animated(vec![key(0, 0.0), key(60, 1.0)]);
    let kfs = keyframes(set_keyframe_at(&c, Rational::new(30, 30), s(0.7)));
    assert_eq!(kfs.len(), 3);
    assert_eq!(kfs[1].t, Rational::new(30, 30));
    assert_eq!(f(kfs[1].v), 0.7);
}

#[test]
fn delete_keyframe_keeps_at_least_one() {
    let c = Curve::Animated(vec![key(0, 0.0)]);
    let kfs = keyframes(apply_curve_action(&c, CurveAction::Delete { index: 0 }));
    assert_eq!(kfs.len(), 1);
}

#[test]
fn curve_actions_keep_keyframes_in_order() {
    let c = Curve::Animated(vec![key(0, 0.0), key(30, 1.0), key(60, 2.0)]);
    let moved = apply_curve_action(
        &c,
        CurveAction::Move { index: 0, time: Rational::new(45, 30), value: s(9.0) },
    );
    let values: Vec<f32> = keyframes(moved).iter().map(|k| f(k.v)).collect();
    assert_eq!(values, vec![1.0, 9.0, 2.0]);
    let eased =
        apply_curve_action(&c, CurveAction::SetInterp { index: 1, interp: InterpKind::Hold });
    assert_eq!(keyframes(eased)[1].interp, InterpKind::Hold);
    let added = apply_curve_action(
        &Curve::Static(s(3.0)),
        CurveAction::AddAt { time: Rational::new(1, 1), value: s(4.0) },
    );
    let kfs = keyframes(added);
    assert_eq!((kfs.len(), kfs[0].t, f(kfs[0].v)), (2, Rational::new(0, 30), 3.0));
    let shorter = apply_curve_action(&c, CurveAction::Delete { index: 1 });
    assert_eq!(keyframes(shorter).len(), 2);
}

fn row(effect_index: usize, param: &str, kfs: Vec<Keyframe<Scalar>>) -> AnimatedRow {
    AnimatedRow {
        effect_index,
        effect_label: "x".to_string(),
        param_id: param.to_string(),
        param_label: "X".to_string(),
        min: s(0.0),
        max: s(1.0),
        curve: Curve::Animated(kfs),
    }
}

fn at(effect_index: usize, param: &str, index: usize) -> GraphKey {
    GraphKey { effect_index, param_id: param.to_string(), index }
}

fn set_keyframes(a: &EffectsAction) -> Vec<Keyframe<Scalar>> {
    match a {
        EffectsAction::SetValue { value: ParamValue::FloatCurve(Curve::Animated(k)), .. } => {
            k.clone()
        }
        other => panic!("unexpected {other:?}"),
    }
}

#[test]
fn bulk_delete_preserves_at_least_one_keyframe() {
    let r = row(0, "g", vec![key(0, 0.0)]);
    let mut sel = GraphSelection::default();
    sel.click(at(0, "g", 0), true);
    let actions = bulk_delete(&sel, &vec![r]);
    assert_eq!(actions.len(), 1);
    assert_eq!(set_keyframes(&actions[0]).len(), 1);
}

#[test]
fn bulk_delete_removes_selected_indices() {
    let r = row(0, "g", vec![key(0, 0.0), key(30, 0.5), key(60, 1.0)]);
    let mut sel = GraphSelection::default();
    sel.click(at(0, "g", 1), true);
    let actions = bulk_delete(&sel, &vec![r]);
    let kfs = set_keyframes(&actions[0]);
    assert_eq!(kfs.len(), 2);
    assert_eq!(f(kfs[0].v), 0.0);
    assert_eq!(f(kfs[1].v), 1.0);
}

#[test]
fn selections_toggle_with_shift() {
    let mut sel = GraphSelection::default();
    sel.click(at(0, "g", 1), false);
    sel.click(at(0, "g", 2), true);
    assert_eq!(sel.keys().len(), 2);
    sel.click(at(0, "g", 1), true);
    assert!(!sel.contains(&at(0, "g", 1)));
    sel.click(at(1, "h", 0), false);
    assert_eq!(*sel.keys(), vec![at(1, "h", 0)]);
    let rows = vec![row(0, "g", vec![key(0, 0.0)]), row(1, "h", vec![key(0, 1.0), key(9, 2.0)])];
    let actions = delete_selected(&mut sel, &rows);
    assert_eq!(actions.len(), 1);
    assert_eq!(f(set_keyframes(&actions[0])[0].v), 2.0);
    assert!(sel.keys().is_empty());
}

#[test]
fn number_keys_set_the_interpolation_of_the_selection() {
    assert_eq!(interp_for_key(1), Some(InterpKind::Hold));
    assert_eq!(interp_for_key(5), Some(InterpKind::EaseInOut));
    assert_eq!(interp_for_key(6), None);
    let rows = vec![row(0, "g", vec![key(0, 0.0), key(9, 1.0)]), row(1, "h", vec![key(0, 1.0)])];
    let mut sel = GraphSelection::default();
    sel.click(at(0, "g", 1), true);
    sel.click(at(1, "h", 0), true);
    let actions = set_selected_interp(&sel, &rows, InterpKind::EaseIn);
    assert_eq!(actions.len(), 2);
    let kinds: Vec<InterpKind> = set_keyframes(&actions[0]).iter().map(|k| k.interp).collect();
    assert_eq!(kinds, vec![InterpKind::Linear, InterpKind::EaseIn]);
}

fn quiet(n: usize) -> RowInput {
    RowInput {
        hovers: vec![false; n],
        presses: vec![false; n],
        point: None,
        drag_started: false,
        dragged: false,
        drag_stopped: false,
        clicked: false,
        double_clicked: false,
        shift: false,
        menu: None,
    }
}

#[test]
fn rows_answer_the_pointer() {
    let r = row(2, "g", vec![key(0, 0.0), key(30, 0.5), key(60, 1.0)]);
    let mut sel = GraphSelection::default();
    let mut dragging = None;
    let here = GraphPoint { time: Rational::new(90, 30), value: s(0.25) };

    let mut input = quiet(3);
    input.presses[0] = true;
    input.point = Some(here);
    input.drag_started = true;
    input.dragged = true;
    let actions = row_events(&mut sel, &mut dragging, &r, &input);
    assert_eq!(dragging, Some(0));
    assert_eq!(f(set_keyframes(&actions[0])[2].v), 0.25);

    let mut input = quiet(3);
    input.drag_stopped = true;
    assert!(row_events(&mut sel, &mut dragging, &r, &input).is_empty());
    assert_eq!(dragging, None);

    let mut input = quiet(3);
    input.hovers[1] = true;
    input.clicked = true;
    row_events(&mut sel, &mut dragging, &r, &input);
    assert_eq!(*sel.keys(), vec![at(2, "g", 1)]);

    let mut input = quiet(3);
    input.menu = Some(MenuChoice::Interp(InterpKind::Hold));
    let actions = row_events(&mut sel, &mut dragging, &r, &input);
    assert_eq!(set_keyframes(&actions[0])[1].interp, InterpKind::Hold);
    input.menu = Some(MenuChoice::Delete);
    let actions = row_events(&mut sel, &mut dragging, &r, &input);
    assert_eq!(set_keyframes(&actions[0]).len(), 2);

    let mut input = quiet(3);
    input.double_clicked = true;
    input.point = Some(here);
    let actions = row_events(&mut sel, &mut dragging, &r, &input);
    assert_eq!(set_keyframes(&actions[0]).len(), 4);

    let one = row(2, "h", vec![key(0, 0.0)]);
    let mut input = quiet(1);
    input.hovers[0] = true;
    input.menu = Some(MenuChoice::Delete);
    assert!(row_events(&mut sel, &mut dragging, &one, &input).is_empty());
}

#[test]
fn strips_do_one_thing_at_a_time() {
    let c = Curve::Animated(vec![key(0, 0.0), key(30, 1.0)]);
    let here = GraphPoint { time: Rational::new(45, 30), value: s(0.75) };
    let input = |menu, hover: Option<usize>| {
        let mut hovers = vec![false; 2];
        if let Some(i) = hover {
            hovers[i] = true;
        }
        StripInput {
            hovers,
            presses: vec![false; 2],
            point: None,
            hover_point: Some(here),
            drag_started: false,
            dragged: false,
            drag_stopped: false,
            double_clicked: false,
            menu,
        }
    };
    let mut dragging = Some(1);
    let add = CurveAction::AddAt { time: here.time, value: here.value };
    assert_eq!(strip_events(&c, &mut dragging, &input(Some(StripChoice::Add), None)), Some(add));
    assert_eq!(
        strip_events(&c, &mut dragging, &input(Some(StripChoice::Delete), Some(0))),
        Some(CurveAction::Delete { index: 0 })
    );
    let mut drag = input(None, None);
    drag.dragged = true;
    drag.point = Some(here);
    assert_eq!(
        strip_events(&c, &mut dragging, &drag),
        Some(CurveAction::Move { index: 1, time: here.time, value: here.value })
    );
    drag.double_clicked = true;
    assert_eq!(strip_events(&c, &mut dragging, &drag), Some(add));
    assert_eq!(strip_events(&Curve::Static(s(1.0)), &mut dragging, &drag), None);
}

#[test]
fn rows_are_collected_from_animated_numbers() {
    let mut manifests = ManifestRegistry::new();
    manifests.insert(manifest(
        "fx",
        vec![
            decl("a", float(1.0)),
            decl(
                "g",
                ParamKind::OptionalGroup {
                    default_enabled: true,
                    parameters: vec![decl("b", float(2.0))],
                },
            ),
        ],
    ));
    let mut e = editor();
    e.manifests = manifests;
    e.apply_layer_action(LayerAction::Select(Some(LayerId(1))));
    e.apply_effects_actions(&vec![EffectsAction::AddEffect { effect_id: "fx".to_string() }]);
    let curve = || ParamValue::FloatCurve(Curve::Animated(vec![key(0, 0.5)]));
    let set = |id: &str, value: ParamValue| EffectsAction::SetValue {
        effect_index: 1,
        id: id.to_string(),
        value,
    };
    e.apply_effects_actions(&vec![set("g.b", curve())]);
    let rows = collect_animated_rows(&e.project.compositions[0].layers[0].effects, &e.manifests);
    assert_eq!(rows.len(), 1);
    assert_eq!((rows[0].effect_index, rows[0].param_id.as_str()), (1, "g.b"));
    e.apply_effects_actions(&vec![set("g", ParamValue::GroupEnabled(false)), set("a", curve())]);
    let rows = collect_animated_rows(&e.project.compositions[0].layers[0].effects, &e.manifests);
    assert_eq!(rows.len(), 1);
    assert_eq!((rows[0].param_id.as_str(), rows[0].param_label.as_str()), ("a", "A"));
}

#[test]
fn controls_show_stored_values_or_defaults() {
    let variants = vec![
        EnumVariant { id: "one".to_string(), display_name: "One".to_string() },
        EnumVariant { id: "two".to_string(), display_name: "Two".to_string() },
    ];
    let params = vec![
        decl("a", float(1.0)),
        decl("n", ParamKind::Int { default: 3, range: IntRange { min: 0, max: 9 } }),
        decl("e", ParamKind::Enum { variants, default: "two".to_string() }),
        decl(
            "g",
            ParamKind::OptionalGroup {
                default_enabled: false,
                parameters: vec![decl("b", ParamKind::Bool { default: true })],
            },
        ),
    ];
    let mut v = ParamValues::new();
    v.set("a".to_string(), ParamValue::FloatCurve(Curve::Animated(vec![key(0, 0.5)])));
    let cs = controls(&params, "", &v, Rational::new(0, 30));
    assert_eq!(
        cs[0].kind,
        ControlKind::Float {
            animated: true,
            current: CurveSample::Exact(s(0.5)),
            min: s(0.0),
            max: s(4.0)
        }
    );
    assert_eq!(cs[1].kind, ControlKind::Int { current: 3, min: 0, max: 9 });
    assert_eq!(
        cs[2].kind,
        ControlKind::Enum { current: "two".to_string(), shown: "Two".to_string() }
    );
    assert_eq!(cs[3].kind, ControlKind::OptionalGroup { enabled: false, children: vec![] });
    v.set("g".to_string(), ParamValue::GroupEnabled(true));
    v.set("g.b".to_string(), ParamValue::Bool(false));
    let cs = controls(&params, "", &v, Rational::new(0, 30));
    match &cs[3].kind {
        ControlKind::OptionalGroup { enabled: true, children } => {
            assert_eq!(children[0].id, "g.b");
            assert_eq!(children[0].kind, ControlKind::Bool { current: false });
        }
        other => panic!("unexpected {other:?}"),
    }
}

#[test]
fn stopwatch_slider_and_list_make_values() {
    let t = Rational::new(30, 30);
    assert_eq!(stopwatch_value(true, s(0.5), t), ParamValue::Float(s(0.5)));
    assert_eq!(
        stopwatch_value(false, s(0.5), t),
        ParamValue::FloatCurve(Curve::Animated(vec![key(30, 0.5)]))
    );
    assert_eq!(slider_value(None, t, s(0.5)), ParamValue::Float(s(0.5)));
    let c = Curve::Animated(vec![key(0, 0.0)]);
    assert_eq!(
        slider_value(Some(&c), t, s(1.0)),
        ParamValue::FloatCurve(Curve::Animated(vec![key(0, 0.0), key(30, 1.0)]))
    );
    assert_eq!(chosen_value("a", "a"), None);
    assert_eq!(chosen_value("a", "b"), Some(ParamValue::Enum("b".to_string())));
    let e = editor();
    assert_eq!(effect_heading(&e.manifests, "gain"), "gain effect");
    assert_eq!(effect_heading(&e.manifests, "blur"), "blur");
    assert_eq!(no_manifest_text("blur"), "(no manifest registered for 'blur')");
}

#[test]
fn the_editor_starts_with_a_slate_preview() {
    let e = editor();
    assert_eq!(e.comp_id, CompId(1));
    let c = e.project.composition(e.comp_id).unwrap();
    assert_eq!((c.name.as_str(), c.width, c.height), ("preview", 1280, 720));
    assert_eq!((c.duration_frames, c.framerate), (600, Framerate::fps_30()));
    assert_eq!(c.layers.len(), 1);
    match c.layers[0].kind {
        LayerKind::Solid { color } => {
            assert_eq!([color.r, color.g, color.b, color.a].map(f), [0.18, 0.22, 0.32, 1.0]);
        }
        other => panic!("unexpected {other:?}"),
    }
    assert_eq!(c.layers[0].effects[0].values.float("gain").map(f), Some(1.0));
    assert!(e.project.validate().is_ok());
    assert!(AppInitError::NoWgpuRenderState.message().starts_with("eframe did not provide"));
}

#[test]
fn layer_edits_are_applied_in_order() {
    let mut e = editor();
    e.frame_rendered();
    e.apply_layer_actions(&vec![]);
    assert!(!e.render_dirty);
    e.apply_layer_actions(&vec![LayerAction::AddSolid, LayerAction::AddAdjustment]);
    assert!(e.render_dirty);
    assert_eq!(e.take_cache_reset(), CacheReset::Current);
    assert_eq!(e.selected_layer, Some(LayerId(3)));
    let names = |e: &Editor| {
        e.project.compositions[0].layers.iter().map(|l| l.name.clone()).collect::<Vec<_>>()
    };
    assert_eq!(names(&e), ["background", "Solid", "Adjustment"]);
    e.apply_layer_actions(&vec![LayerAction::MoveUp(LayerId(1))]);
    assert_eq!(names(&e), ["Solid", "background", "Adjustment"]);
    e.apply_layer_actions(&vec![LayerAction::MoveDown(LayerId(1))]);
    assert_eq!(names(&e), ["background", "Solid", "Adjustment"]);
    e.apply_layer_actions(&vec![
        LayerAction::SetTimeOffset(LayerId(2), -5),
        LayerAction::SetCompDurationFrames(100),
        LayerAction::SetCompFramerate(24, 1),
        LayerAction::SetCompWidth(320),
        LayerAction::Delete(LayerId(3)),
    ]);
    let c = &e.project.compositions[0];
    assert_eq!(c.layers[1].time_offset_frames, -5);
    assert!(c.layers.iter().all(|l| l.out_frame == 100));
    assert_eq!((c.width, c.framerate), (320, Framerate::fps_24()));
    assert_eq!(e.playhead.duration_frames(), 100);
    assert_eq!(e.playhead.framerate(), Framerate::fps_24());
    assert_eq!(e.selected_layer, None);
}

#[test]
fn layer_rows_show_the_top_layer_first() {
    let mut e = editor();
    e.apply_layer_action(LayerAction::AddAdjustment);
    let rows = layer_rows(&e.project.compositions[0], e.selected_layer);
    assert_eq!(rows[0].label, "⚙  Adjustment");
    assert!(rows[0].selected);
    assert_eq!(rows[1].label, "■  background");
    assert_eq!(row_click(&rows[0]), LayerAction::Select(None));
    assert_eq!(row_click(&rows[1]), LayerAction::Select(Some(LayerId(1))));
    assert_eq!(kind_glyph(&LayerKind::Null), "○");
    assert!(!follows_time(&LayerKind::Null));
    assert!(follows_time(&LayerKind::Composition { comp: CompId(1) }));
}

#[test]
fn deleting_an_audio_layer_restarts_playback() {
    let mut e = editor();
    e.complete_import("/m/tone.wav".to_string(), AssetKind::Audio, false);
    e.audio.rebuilt();
    e.audio.opened(0);
    let id = e.selected_layer.unwrap();
    e.apply_layer_action(LayerAction::Delete(id));
    assert!(e.audio.bus_dirty && !e.audio.open);
    assert_eq!(e.selected_layer, None);
}

#[test]
fn mask_edits_count_only_where_they_change_something() {
    let mut e = editor();
    e.frame_rendered();
    let id = LayerId(1);
    e.apply_mask_actions(&vec![MaskAction::Delete { layer: id, index: 0 }], shapes());
    assert!(!e.render_dirty);
    e.apply_mask_actions(
        &vec![
            MaskAction::AddRectangle(id),
            MaskAction::AddEllipse(id),
            MaskAction::SetMode { layer: id, index: 1, mode: MaskMode::Subtract },
            MaskAction::SetFeather { layer: id, index: 0, value: s(2.0) },
        ],
        shapes(),
    );
    assert!(e.render_dirty);
    let masks = &e.project.compositions[0].layers[0].masks;
    assert_eq!(masks[0].name, "Mask 1");
    assert_eq!(masks[1].name, "Mask 2");
    assert_eq!(masks[1].mode, MaskMode::Subtract);
    assert_eq!(f(masks[0].feather), 2.0);
    e.apply_mask_actions(
        &vec![
            MaskAction::SetOpacity { layer: id, index: 0, value: s(0.5) },
            MaskAction::SetExpansion { layer: id, index: 0, value: s(-1.0) },
            MaskAction::Delete { layer: id, index: 1 },
        ],
        shapes(),
    );
    let masks = &e.project.compositions[0].layers[0].masks;
    assert_eq!((masks.len(), f(masks[0].opacity), f(masks[0].expansion)), (1, 0.5, -1.0));
}

fn nothing() -> ViewerInput {
    ViewerInput {
        escape: false,
        shift: false,
        clicked: false,
        drag_started: false,
        dragged: false,
        drag_stopped: false,
        pointer: None,
    }
}

fn pointer(u: f32, v: f32) -> Option<ViewerPointer> {
    Some(ViewerPointer {
        on_picture: point(u, v),
        in_comp: point(u * 100.0, v * 100.0),
        near_first: false,
        too_small: false,
    })
}

#[test]
fn edits_keep_the_count_of_played_time() {
    let mut e = editor();
    e.apply_transport_actions(&vec![TransportAction::Toggle]);
    let start = std::time::Instant::now();
    while start.elapsed().as_millis() < 100 {}
    // Edits other than starting playback do not look at the clock.
    e.apply_layer_actions(&vec![LayerAction::Select(None)]);
    e.viewer_events(&nothing());
    e.apply_transport_actions(&vec![TransportAction::ToggleGraphEditor]);
    e.tick();
    assert!(e.playhead.current_frame() >= 3);
    // Stopping and starting again counts anew.
    let mut again = editor();
    again.apply_transport_actions(&vec![TransportAction::Toggle]);
    let start = std::time::Instant::now();
    while start.elapsed().as_millis() < 100 {}
    let restarted = std::time::Instant::now();
    again.apply_transport_actions(&vec![TransportAction::Toggle, TransportAction::Toggle]);
    again.tick();
    let most = restarted.elapsed().as_nanos() * 30 / 1_000_000_000;
    assert!(again.playhead.current_frame() as u128 <= most);
}

#[test]
fn shift_drags_draw_a_region() {
    let mut e = editor();
    let at = |u: f32| ViewerInput { shift: true, pointer: pointer(u, u), ..nothing() };
    e.viewer_events(&ViewerInput { drag_started: true, dragged: true, ..at(0.25) });
    assert_eq!(e.region_anchor, Some(point(0.25, 0.25)));
    assert_eq!(e.render_region, None);
    let small = pointer(0.25, 0.25).map(|p| ViewerPointer { too_small: true, ..p });
    e.viewer_events(&ViewerInput { dragged: true, pointer: small, ..nothing() });
    assert_eq!(e.render_region, None);
    e.viewer_events(&ViewerInput { dragged: true, pointer: pointer(0.75, 0.5), ..nothing() });
    let region = RegionRect::from_corners(point(0.25, 0.25), point(0.75, 0.5));
    assert_eq!(e.render_region, Some(region));
    e.viewer_events(&ViewerInput { dragged: true, ..nothing() });
    assert_eq!(e.region_anchor, Some(point(0.25, 0.25)));
    e.viewer_events(&ViewerInput { drag_stopped: true, ..nothing() });
    assert_eq!((e.region_anchor, e.render_region), (None, Some(region)));
    // Without Shift a drag draws nothing.
    e.viewer_events(&ViewerInput { drag_started: true, dragged: true, ..at(0.0) });
    e.viewer_events(&ViewerInput { escape: true, ..nothing() });
    assert_eq!((e.region_anchor, e.render_region), (None, None));
    let plain = ViewerInput { shift: false, ..at(0.5) };
    e.viewer_events(&ViewerInput { drag_started: true, dragged: true, ..plain });
    e.viewer_events(&ViewerInput { dragged: true, ..plain });
    assert_eq!((e.region_anchor, e.render_region), (None, None));
}

#[test]
fn plain_clicks_are_the_pens() {
    let mut e = editor();
    e.apply_mask_actions(&vec![MaskAction::StartPen(LayerId(1))], shapes());
    let click = |u: f32, v: f32| ViewerInput { clicked: true, pointer: pointer(u, v), ..nothing() };
    e.viewer_events(&click(0.0, 0.0));
    e.viewer_events(&ViewerInput { shift: true, ..click(0.5, 0.5) });
    e.viewer_events(&ViewerInput { clicked: true, ..nothing() });
    assert_eq!(e.pen.anchors.len(), 1);
    e.viewer_events(&click(1.0, 0.0));
    e.viewer_events(&click(1.0, 1.0));
    assert_eq!(e.pen.anchors[1].anchor, point(100.0, 0.0));
    let near = pointer(0.0, 0.0).map(|p| ViewerPointer { near_first: true, ..p });
    e.viewer_events(&ViewerInput { pointer: near, ..click(0.0, 0.0) });
    assert_eq!(e.pen.layer, None);
    assert_eq!(e.project.compositions[0].layers[0].masks.len(), 1);
    e.apply_mask_actions(&vec![MaskAction::StartPen(LayerId(1))], shapes());
    e.viewer_events(&ViewerInput { escape: true, ..click(0.5, 0.5) });
    assert!(e.pen.layer.is_none() && e.pen.anchors.is_empty());
}

#[test]
fn only_new_layers_need_an_id() {
    let mut e = editor();
    e.project.compositions[0].next_layer_id = u32::MAX;
    let edits = vec![
        LayerAction::SetCompFramerate(30, 0),
        LayerAction::SetCompDurationFrames(7),
        LayerAction::Select(None),
    ];
    assert!(e.has_room(&edits));
    e.apply_layer_actions(&edits);
    assert_eq!(e.playhead.duration_frames(), 7);
    assert_eq!(e.playhead.framerate(), Framerate::new(30, 0));
    e.tick();
    assert!(!e.has_room(&vec![LayerAction::Select(None), LayerAction::AddSolid]));
    e.project.compositions[0].next_layer_id = u32::MAX - 2;
    assert!(e.has_room(&vec![LayerAction::AddSolid, LayerAction::AddAdjustment]));
    assert!(!e.has_room(&vec![LayerAction::AddSolid; 3]));
}

#[test]
fn the_pen_draws_a_mask() {
    let mut e = editor();
    let id = LayerId(1);
    e.apply_mask_actions(&vec![MaskAction::StartPen(id)], shapes());
    e.pen_click(point(0.0, 0.0), false);
    e.pen_click(point(10.0, 0.0), true);
    e.pen_click(point(10.0, 10.0), true);
    assert_eq!(e.pen.anchors.len(), 3);
    e.pen_click(point(0.0, 0.0), true);
    assert_eq!(e.pen.layer, None);
    let masks = &e.project.compositions[0].layers[0].masks;
    assert_eq!(masks[0].name, "Pen mask 1");
    match &masks[0].path {
        Curve::Static(p) => assert_eq!(p.vertices.len(), 3),
        Curve::Animated(_) => panic!("expected a fixed path"),
    }
    e.pen_click(point(0.0, 0.0), true);
    assert!(e.pen.anchors.is_empty());
    let mut pen = PenState::default();
    pen.start(id);
    pen.add_anchor(s(1.0), s(1.0));
    assert!(pen.close_into_path().is_none());
    pen.cancel();
    assert!(pen.anchors.is_empty());
}

#[test]
fn effects_are_added_before_other_edits() {
    let mut e = editor();
    e.frame_rendered();
    let toggle = |i| EffectsAction::ToggleEnabled { effect_index: i, enabled: false };
    e.apply_effects_actions(&vec![toggle(0)]);
    assert!(!e.render_dirty);
    e.apply_layer_action(LayerAction::Select(Some(LayerId(1))));
    e.apply_effects_actions(&vec![
        toggle(1),
        EffectsAction::AddEffect { effect_id: "blur".to_string() },
        EffectsAction::MoveUp { effect_index: 1 },
    ]);
    let effects = &e.project.compositions[0].layers[0].effects;
    assert_eq!(effects[0].id, "blur");
    assert!(!effects[0].enabled && effects[0].values.is_empty());
    e.apply_effects_actions(&vec![
        EffectsAction::MoveDown { effect_index: 0 },
        EffectsAction::RemoveEffect { effect_index: 0 },
        EffectsAction::RemoveEffect { effect_index: 7 },
    ]);
    let effects = &e.project.compositions[0].layers[0].effects;
    assert_eq!(effects.len(), 1);
    assert_eq!(effects[0].id, "blur");
}

#[test]
fn presets_add_their_effects() {
    let mut e = editor();
    e.apply_preset(0);
    assert_eq!(e.project.compositions[0].layers[0].effects.len(), 1);
    e.apply_layer_action(LayerAction::Select(Some(LayerId(1))));
    e.apply_preset(3);
    assert_eq!(e.project.compositions[0].layers[0].effects.len(), 1);
    e.apply_preset(0);
    let effects = &e.project.compositions[0].layers[0].effects;
    assert_eq!(effects.len(), 3);
    assert_eq!(effects[1].values.float("gain").map(f), Some(0.5));
    assert_eq!(effects[2].values.bool("x"), Some(true));
}

#[test]
fn files_are_picked_one_at_a_time() {
    let mut e = editor();
    assert!(e.start_file_pick(PendingFileKind::OpenProject));
    assert!(!e.start_file_pick(PendingFileKind::ImportImage));
    assert_eq!(
        e.file_picked(Some("/p.felx".to_string())),
        FileTask::Open { path: "/p.felx".to_string() }
    );
    e.apply_layer_action(LayerAction::ImportVideo);
    assert_eq!(e.pending_file, Some(PendingFileKind::ImportVideo));
    assert_eq!(
        e.file_picked(Some("/v.mp4".to_string())),
        FileTask::Import { path: "/v.mp4".to_string(), kind: AssetKind::Video }
    );
    e.start_file_pick(PendingFileKind::ExportOutput);
    assert_eq!(e.file_picked(Some("/o.mp4".to_string())), FileTask::Nothing);
    assert_eq!(e.export_options.out_path.as_deref(), Some("/o.mp4"));
    e.start_file_pick(PendingFileKind::SaveProjectAs);
    assert_eq!(e.file_picked(None), FileTask::Nothing);
    assert_eq!(e.pending_file, None);
    assert_eq!(pick_title(PendingFileKind::ExportOutput), "Export to…");
    assert!(picks_for_writing(PendingFileKind::SaveProjectAs));
    let filter = pick_filter(PendingFileKind::ImportAudio).unwrap();
    assert_eq!(filter.name, "Audio");
    assert_eq!(filter.extensions, ["wav", "mp3", "flac", "ogg", "aac", "m4a", "opus"]);
    assert!(pick_filter(PendingFileKind::ExportOutput).is_none());
}

#[test]
fn a_video_with_sound_becomes_two_layers() {
    let mut e = editor();
    e.audio.rebuilt();
    e.complete_import("/m/clip.mp4".to_string(), AssetKind::Video, true);
    assert_eq!(e.project.assets.len(), 2);
    let c = &e.project.compositions[0];
    assert_eq!(c.layers[1].name, "clip.mp4");
    assert_eq!(c.layers[2].name, "clip.mp4 (audio)");
    assert_eq!(e.selected_layer, Some(c.layers[1].id));
    assert!(e.audio.bus_dirty);
    assert!(e.project.validate().is_ok());
    e.complete_import("/".to_string(), AssetKind::Image, true);
    assert_eq!(e.project.compositions[0].layers[3].name, "imported");
}

#[test]
fn projects_are_opened_and_saved() {
    let mut e = editor();
    assert_eq!(e.save_project(), None);
    assert_eq!(e.pending_file, Some(PendingFileKind::SaveProjectAs));
    e.project_saved("/a.felx".to_string());
    assert_eq!(e.save_project().as_deref(), Some("/a.felx"));
    e.file_picked(None);
    e.save_project_as();
    assert_eq!(e.project_path, None);
    let mut p = Project::new();
    let id = p.add_composition("other".to_string(), 10, 10);
    p.composition_mut(id).unwrap().duration_frames = 7;
    e.complete_open_project(p, "/b.felx".to_string());
    assert_eq!(e.project_path.as_deref(), Some("/b.felx"));
    assert_eq!(e.playhead.duration_frames(), 7);
    assert_eq!(e.cache, CacheReset::All);
}

#[test]
fn the_transport_moves_the_playhead() {
    let mut e = editor();
    e.frame_rendered();
    e.audio.opened(0);
    e.apply_transport_actions(&vec![TransportAction::Toggle, TransportAction::ToggleGraphEditor]);
    assert!(e.playhead.is_playing() && e.graph_editor_open);
    assert!(!e.render_dirty && e.audio.open);
    e.apply_transport_actions(&vec![
        TransportAction::Seek(10),
        TransportAction::StepForward,
        TransportAction::StepForward,
        TransportAction::StepBackward,
        TransportAction::SetPreviewScale(PreviewScale { divisor: 2 }),
    ]);
    assert_eq!(e.playhead.current_frame(), 11);
    assert!(e.render_dirty && !e.audio.open);
    assert_eq!(e.preview_scale.divisor, 2);
    e.tick();
    assert!(e.needs_render(true));
}

#[test]
fn regions_are_drawn_and_cleared() {
    let r = RegionRect::from_corners(point(0.75, -0.5), point(0.25, 2.0));
    assert_eq!([r.u_min, r.v_min, r.u_max, r.v_max].map(f), [0.25, 0.0, 0.75, 1.0]);
    let mut e = editor();
    e.drag_region(point(0.5, 0.5), false);
    assert!(e.render_region.is_none());
    e.begin_region(point(0.0, 0.0));
    e.drag_region(point(0.001, 0.5), true);
    assert!(e.render_region.is_none());
    e.drag_region(point(0.5, 0.5), false);
    assert!(e.render_region.is_some());
    e.end_region();
    e.pen.start(LayerId(1));
    e.escape();
    assert!(e.render_region.is_none() && e.pen.layer.is_none());
}

#[test]
fn exports_start_run_and_end() {
    let mut e = editor();
    e.export_dialog_open = true;
    assert!(e.start_export().is_none());
    assert!(!e.export_dialog_open && !e.export_running);
    assert_eq!(e.export_status.error.as_deref(), Some("no output path"));
    assert!(e.export_note());
    e.dismiss_export();
    assert!(!e.export_note());
    e.export_options.format = ExportFormat::Wav;
    e.export_options.out_path = Some("tone".to_string());
    let o = e.start_export().unwrap();
    assert_eq!(o.out_path.as_deref(), Some("tone.wav"));
    assert_eq!(e.export_options.out_path.as_deref(), Some("tone"));
    e.export_message(ExportProgress::Started { total_frames: 5 });
    assert!(e.export_running);
    e.export_worker_lost();
    assert!(!e.export_running && e.export_status.finished);
    e.export_message(ExportProgress::Frame { done: 5, total: 5 });
    assert_eq!(e.export_status.done, 0);
}

#[test]
fn shaders_reload_and_fail() {
    let mut e = editor();
    assert!(reloads("gain") && !reloads("invert"));
    e.shader_failed("gain", "line 3");
    assert_eq!(e.shader_error.as_deref(), Some("[gain] line 3"));
    e.shader_reloaded();
    assert!(e.shader_error.is_none());
    assert_eq!(e.take_cache_reset(), CacheReset::All);
    assert_eq!(e.cache, CacheReset::Keep);
}

#[test]
fn registries_keep_their_order() {
    let mut r = ManifestRegistry::new();
    r.insert(manifest("a", vec![]));
    r.insert(manifest("b", vec![]));
    r.insert(manifest("a", vec![decl("x", float(1.0))]));
    assert_eq!(r.len(), 2);
    assert_eq!(r.iter_ordered()[0].parameters.len(), 1);
    assert!(r.get("c").is_none());
    assert_eq!(builtin_effects()[0], "gain");
    assert_eq!(documented_effects()[8], "bloom");
    assert_eq!(builtin_presets().len(), 4);
    assert_eq!(manifest_path("effects", "gain"), "effects/gain/manifest.ron");
    assert_eq!(help_path("effects", "gain"), "effects/gain/README.md");
    assert_eq!(preset_path("presets", "vhs_on_crt"), "presets/vhs_on_crt.ron");
    let p = PresetRegistry::default();
    assert_eq!((p.len(), p.iter().len()), (0, 0));
}
