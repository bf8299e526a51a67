//! The editor: the project that is open, what is selected in it, and what the
//! panels, the viewer and the menus do.

use crate::model::asset::AssetKind;
use crate::model::composition::{
    is_layer, layer_index, with_effect, with_layer, CompId, CompositionModel,
};
use crate::model::effect::{Effect, EffectModel};
use crate::model::layer::{LayerId, LayerKind, LayerModel};
use crate::model::mask::MaskMode;
use crate::model::project::{
    comp_index, is_comp, new_project, with_composition, Project, ProjectModel,
};
use crate::model::time::{Framerate, Rational};
use crate::params::manifest::EffectManifest;
use crate::params::preset::{EffectPreset, PresetEffectModel};
use crate::params::values::{stored, ParamValueModel, ParamValues};
use crate::scalar::{
    clamped, larger, less, not_a_number, one, scalar, smaller, zero, Point, Rgba, Scalar,
};
use crate::seqs::{first_where_is_first, group_views, views};
use crate::studio::audio::AudioDrive;
use crate::studio::effects_panel::{
    apply_to_effects, effects_after, fresh_effect, fresh_effect_is_as_asked, make_effect,
    EffectsAction, EffectsEdit,
};
use crate::studio::export::{
    default_export, new_status, text_view, ExportModel, ExportOptions, ExportStatus, StatusModel,
};
use crate::studio::layer_panel::{
    adds_layer, comp_after, edit_composition, layers_added, LayerAction,
};
use crate::studio::mask_panel::{
    changes_masks, edit_masks, idle_pen, mask_layer, masks_after, MaskAction, MaskShapes, PenModel,
    PenState,
};
use crate::studio::playback::{new_playhead, with_duration, with_framerate, Playhead, PlayheadModel};
use crate::studio::registry::{ManifestRegistry, PresetRegistry};
use std::time::Instant;
use vstd::prelude::*;

verus! {

/// Why the program could not start.
#[derive(Clone, Copy, Debug, PartialEq, Eq, Structural)]
pub enum AppInitError {
    NoWgpuRenderState,
}

impl AppInitError {
    pub fn message(&self) -> (r: &'static str)
        ensures
            r@
                == "eframe did not provide a wgpu render state — was the wgpu feature enabled and the wgpu renderer selected?"@,
    {
        "eframe did not provide a wgpu render state — was the wgpu feature enabled and the wgpu renderer selected?"
    }
}

/// What a file is being picked for.
#[derive(Clone, Copy, Debug, PartialEq, Eq, Structural)]
pub enum PendingFileKind {
    ImportImage,
    ImportVideo,
    ImportAudio,
    OpenProject,
    SaveProjectAs,
    /// The output of an export.
    ExportOutput,
}

/// What to do with a picked file.
#[derive(Clone, Debug, PartialEq, Eq)]
pub enum FileTask {
    Nothing,
    Import { path: String, kind: AssetKind },
    Open { path: String },
    Save { path: String },
}

/// How much of the cache of rendered frames is out of date.
#[derive(Clone, Copy, Debug, PartialEq, Eq, Structural)]
pub enum CacheReset {
    Keep,
    /// The frames of the current composition.
    Current,
    All,
}

/// By how much the preview is smaller than the composition.
#[derive(Clone, Copy, Debug, PartialEq, Eq, Structural)]
pub struct PreviewScale {
    pub divisor: u32,
}

/// Edits of the transport bar.
#[derive(Clone, Copy, Debug, PartialEq, Eq, Structural)]
pub enum TransportAction {
    Toggle,
    StepForward,
    StepBackward,
    Seek(u32),
    SetPreviewScale(PreviewScale),
    ToggleGraphEditor,
}

/// A part of the picture, from 0 to 1 along each side.
#[derive(Clone, Copy, Debug, PartialEq, Eq, Structural)]
pub struct RegionRect {
    pub u_min: Scalar,
    pub v_min: Scalar,
    pub u_max: Scalar,
    pub v_max: Scalar,
}

/// The part of the picture between two corners, in any order.
pub open spec fn region_between(a: Point, b: Point) -> RegionRect {
    RegionRect {
        u_min: clamped(smaller(a.x, b.x), zero(), one()),
        v_min: clamped(smaller(a.y, b.y), zero(), one()),
        u_max: clamped(larger(a.x, b.x), zero(), one()),
        v_max: clamped(larger(a.y, b.y), zero(), one()),
    }
}

impl RegionRect {
    /// The part of the picture between two corners, in any order.
    pub fn from_corners(a: Point, b: Point) -> (r: Self)
        ensures
            r == region_between(a, b),
    {
        let z = Scalar::zero();
        let o = Scalar::one();
        RegionRect {
            u_min: a.x.min_with(b.x).clamp_to(z, o),
            v_min: a.y.min_with(b.y).clamp_to(z, o),
            u_max: a.x.max_with(b.x).clamp_to(z, o),
            v_max: a.y.max_with(b.y).clamp_to(z, o),
        }
    }
}

/// A region lies within the picture and is not inside out, whichever corner
/// comes first.
pub proof fn region_is_upright(a: Point, b: Point)
    requires
        !not_a_number(a.x) && !not_a_number(a.y),
        !not_a_number(b.x) && !not_a_number(b.y),
    ensures
        ({
            let r = region_between(a, b);
            &&& !less(r.u_max, r.u_min) && !less(r.v_max, r.v_min)
            &&& !less(r.u_min, zero()) && !less(one(), r.u_max)
            &&& !less(r.v_min, zero()) && !less(one(), r.v_max)
        }),
{
}

/// The editor's state.
#[derive(Debug)]
pub struct Editor {
    pub project: Project,
    pub comp_id: CompId,
    pub playhead: Playhead,
    pub preview_scale: PreviewScale,
    pub selected_layer: Option<LayerId>,
    pub manifests: ManifestRegistry,
    pub presets: PresetRegistry,
    /// What the last shader reload failed with.
    pub shader_error: Option<String>,
    /// Whether the shown frame is out of date.
    pub render_dirty: bool,
    pub cache: CacheReset,
    pub graph_editor_open: bool,
    /// The part of the picture that the viewer shows.
    pub render_region: Option<RegionRect>,
    /// Where the drag that draws a region began.
    pub region_anchor: Option<Point>,
    pub pen: PenState,
    /// The effect whose help page is open.
    pub help_open_for: Option<String>,
    /// The file that the project came from.
    pub project_path: Option<String>,
    pub audio: AudioDrive,
    pub pending_file: Option<PendingFileKind>,
    pub export_dialog_open: bool,
    pub export_options: ExportOptions,
    pub export_running: bool,
    pub export_status: ExportStatus,
}

/// What the editor's state holds.
#[verifier::ext_equal]
pub struct EditorModel {
    pub project: ProjectModel,
    pub comp_id: CompId,
    pub playhead: PlayheadModel,
    pub preview_scale: PreviewScale,
    pub selected_layer: Option<LayerId>,
    pub manifests: Seq<EffectManifest>,
    pub presets: Seq<EffectPreset>,
    pub shader_error: Option<Seq<char>>,
    pub render_dirty: bool,
    pub cache: CacheReset,
    pub graph_editor_open: bool,
    pub render_region: Option<RegionRect>,
    pub region_anchor: Option<Point>,
    pub pen: PenModel,
    pub help_open_for: Option<Seq<char>>,
    pub project_path: Option<Seq<char>>,
    pub audio: AudioDrive,
    pub pending_file: Option<PendingFileKind>,
    pub export_dialog_open: bool,
    pub export_options: ExportModel,
    pub export_running: bool,
    pub export_status: StatusModel,
}

impl View for Editor {
    type V = EditorModel;

    open spec fn view(&self) -> EditorModel {
        EditorModel {
            project: self.project@,
            comp_id: self.comp_id,
            playhead: self.playhead@,
            preview_scale: self.preview_scale,
            selected_layer: self.selected_layer,
            manifests: self.manifests@,
            presets: self.presets@,
            shader_error: text_view(self.shader_error),
            render_dirty: self.render_dirty,
            cache: self.cache,
            graph_editor_open: self.graph_editor_open,
            render_region: self.render_region,
            region_anchor: self.region_anchor,
            pen: self.pen@,
            help_open_for: text_view(self.help_open_for),
            project_path: text_view(self.project_path),
            audio: self.audio,
            pending_file: self.pending_file,
            export_dialog_open: self.export_dialog_open,
            export_options: self.export_options@,
            export_running: self.export_running,
            export_status: self.export_status@,
        }
    }
}

/// The position of the current composition.
pub open spec fn current(e: EditorModel) -> Option<int> {
    comp_index(e.project.compositions, e.comp_id)
}

/// `p` with `c` as the composition at `i`.
pub open spec fn with_comp_at(p: ProjectModel, i: int, c: CompositionModel) -> ProjectModel {
    ProjectModel { compositions: p.compositions.update(i, c), ..p }
}

/// `e` with the shown frame and the cached frames of the current composition
/// out of date.
pub open spec fn outdated(e: EditorModel) -> EditorModel {
    EditorModel {
        render_dirty: true,
        cache: if e.cache == CacheReset::All {
            CacheReset::All
        } else {
            CacheReset::Current
        },
        ..e
    }
}

/// `e` while a file is picked. One file is picked at a time.
pub open spec fn picking(e: EditorModel, kind: PendingFileKind) -> EditorModel {
    if e.pending_file is Some {
        e
    } else {
        EditorModel { pending_file: Some(kind), ..e }
    }
}

/// Whether `n` more layers can be added to the current composition.
pub open spec fn room_for(e: EditorModel, n: int) -> bool {
    match current(e) {
        Some(i) => e.project.compositions[i].next_layer_id + n <= u32::MAX,
        None => true,
    }
}

/// Slate blue, opaque.
pub open spec fn slate() -> Rgba {
    Rgba {
        r: scalar(0x3e38_51ec),
        g: scalar(0x3e61_47ae),
        b: scalar(0x3ea3_d70a),
        a: one(),
    }
}

/// The composition of a new project: 600 frames of slate blue with a gain
/// effect.
pub open spec fn preview_comp(manifests: Seq<EffectManifest>) -> CompositionModel {
    let c = CompositionModel {
        duration_frames: 600,
        ..crate::model::composition::new_composition(CompId(1), "preview"@, 1280, 720)
    };
    with_effect(
        with_layer(c, "background"@, LayerKind::Solid { color: slate() }, 0, 600),
        LayerId(1),
        fresh_effect(manifests, "gain"@),
    )
}

/// The project that the editor starts with.
pub open spec fn default_project_model(manifests: Seq<EffectManifest>) -> ProjectModel {
    with_comp_at(
        with_composition(new_project(), "preview"@, 1280, 720),
        0,
        preview_comp(manifests),
    )
}

/// The project that the editor starts with, and its composition.
pub fn default_project(manifests: &ManifestRegistry) -> (r: (Project, CompId))
    ensures
        r.0@ == default_project_model(manifests@),
        r.1 == CompId(1),
        comp_index(r.0@.compositions, r.1) == Some(0int),
{
    broadcast use group_views;

    let mut project = Project::new();
    let id = project.add_composition("preview".to_owned(), 1280, 720);
    proof {
        assert(is_comp(id)(project@.compositions[0]));
        first_where_is_first(project@.compositions, is_comp(id), 0);
    }
    if let Some(comp) = project.composition_mut(id) {
        comp.duration_frames = 600;
        let z = Scalar::zero();
        comp.background = Rgba { r: z, g: z, b: z, a: Scalar::one() };
        let layer = comp.add_solid(
            "background".to_owned(),
            Rgba {
                r: Scalar::from_bits(0x3e38_51ec),
                g: Scalar::from_bits(0x3e61_47ae),
                b: Scalar::from_bits(0x3ea3_d70a),
                a: Scalar::one(),
            },
        );
        let gain = make_effect(manifests, "gain");
        comp.push_effect(layer, gain);
    }
    proof {
        assert(project@.compositions =~= default_project_model(manifests@).compositions);
        assert(is_comp(id)(project@.compositions[0]));
        first_where_is_first(project@.compositions, is_comp(id), 0);
    }
    (project, id)
}

/// The editor as it starts at `now`.
pub open spec fn new_editor(
    manifests: Seq<EffectManifest>,
    presets: Seq<EffectPreset>,
    now: Instant,
) -> EditorModel {
    EditorModel {
        project: default_project_model(manifests),
        comp_id: CompId(1),
        playhead: new_playhead(Framerate(Rational { num: 30, den: 1 }), 600, now),
        preview_scale: PreviewScale { divisor: 1 },
        selected_layer: None,
        manifests,
        presets,
        shader_error: None,
        render_dirty: true,
        cache: CacheReset::Keep,
        graph_editor_open: false,
        render_region: None,
        region_anchor: None,
        pen: idle_pen(),
        help_open_for: None,
        project_path: None,
        audio: AudioDrive { open: false, bus_dirty: true, emit_cursor: 0, start_frame: 0 },
        pending_file: None,
        export_dialog_open: false,
        export_options: default_export(),
        export_running: false,
        export_status: new_status(),
    }
}

/// `e` after one edit of the layer panel.
pub open spec fn layer_edited(e: EditorModel, action: LayerAction) -> EditorModel {
    match action {
        LayerAction::Select(id) => EditorModel { selected_layer: id, ..e },
        LayerAction::ImportImage => picking(e, PendingFileKind::ImportImage),
        LayerAction::ImportVideo => picking(e, PendingFileKind::ImportVideo),
        LayerAction::ImportAudio => picking(e, PendingFileKind::ImportAudio),
        LayerAction::Delete(id) => layer_deleted(e, id),
        _ => match current(e) {
            Some(i) => {
                let c = e.project.compositions[i];
                EditorModel {
                    project: with_comp_at(e.project, i, comp_after(c, action)),
                    selected_layer: if adds_layer(action) {
                        Some(LayerId(c.next_layer_id))
                    } else {
                        e.selected_layer
                    },
                    playhead: match action {
                        LayerAction::SetCompFramerate(num, den) => with_framerate(
                            e.playhead,
                            Framerate(Rational { num, den }),
                        ),
                        LayerAction::SetCompDurationFrames(frames) => with_duration(
                            e.playhead,
                            frames,
                        ),
                        _ => e.playhead,
                    },
                    ..e
                }
            },
            None => e,
        },
    }
}

/// Whether the layer with `id` plays audio.
pub open spec fn is_audio_layer(c: CompositionModel, id: LayerId) -> bool {
    match layer_index(c.layers, id) {
        Some(i) => c.layers[i].kind is Audio,
        None => false,
    }
}

/// `e` without the layer with `id`: it is no longer selected, and audio
/// playback starts anew if the layer played audio.
pub open spec fn layer_deleted(e: EditorModel, id: LayerId) -> EditorModel {
    let was_audio = match current(e) {
        Some(i) => is_audio_layer(e.project.compositions[i], id),
        None => false,
    };
    EditorModel {
        project: match current(e) {
            Some(i) => with_comp_at(
                e.project,
                i,
                comp_after(e.project.compositions[i], LayerAction::Delete(id)),
            ),
            None => e.project,
        },
        selected_layer: if e.selected_layer == Some(id) {
            None
        } else {
            e.selected_layer
        },
        audio: if was_audio {
            AudioDrive { bus_dirty: true, open: false, ..e.audio }
        } else {
            e.audio
        },
        ..e
    }
}

/// `e` after edits of the layer panel, in order.
pub open spec fn layers_edited(e: EditorModel, actions: Seq<LayerAction>) -> EditorModel
    decreases actions.len(),
{
    if actions.len() == 0 {
        e
    } else {
        layer_edited(layers_edited(e, actions.drop_last()), actions.last())
    }
}

proof fn layer_edit_keeps(e: EditorModel, action: LayerAction, n: int)
    requires
        room_for(e, n),
        adds_layer(action) ==> n >= 1,
    ensures
        room_for(
            layer_edited(e, action),
            n - (if adds_layer(action) {
                1int
            } else {
                0int
            }),
        ),
        layer_edited(e, action).comp_id == e.comp_id,
{
    let f = layer_edited(e, action);
    first_where_is_first(e.project.compositions, is_comp(e.comp_id), 0);
    first_where_is_first(f.project.compositions, is_comp(e.comp_id), 0);
    if let Some(i) = current(e) {
        let c = e.project.compositions[i];
        assert(comp_after(c, action).id == c.id) by {
            match action {
                LayerAction::Delete(id) => {},
                _ => {},
            }
        }
        assert(f.project.compositions.len() == e.project.compositions.len());
        assert forall|k: int| 0 <= k < e.project.compositions.len() implies (
        #[trigger] f.project.compositions[k]).id == e.project.compositions[k].id by {}
        assert forall|k: int| 0 <= k < i implies !is_comp(e.comp_id)(
            #[trigger] f.project.compositions[k],
        ) by {
            assert(!is_comp(e.comp_id)(e.project.compositions[k]));
        }
        assert(is_comp(e.comp_id)(e.project.compositions[i]));
        assert(is_comp(e.comp_id)(f.project.compositions[i]));
        assert(current(f) == Some(i));
    }
}

/// `e` after one edit of the masks panel.
pub open spec fn mask_edited(
    e: EditorModel,
    action: MaskAction,
    shapes: MaskShapes,
) -> EditorModel {
    if action is StartPen {
        EditorModel {
            pen: PenModel { layer: Some(mask_layer(action)), anchors: Seq::empty() },
            ..e
        }
    } else {
        match current(e) {
            None => e,
            Some(i) => {
                let c = e.project.compositions[i];
                match layer_index(c.layers, mask_layer(action)) {
                    None => e,
                    Some(k) => {
                        let masks = c.layers[k].masks;
                        let d = CompositionModel {
                            layers: c.layers.update(
                                k,
                                LayerModel {
                                    masks: masks_after(masks, action, shapes),
                                    ..c.layers[k]
                                },
                            ),
                            ..c
                        };
                        let f = EditorModel { project: with_comp_at(e.project, i, d), ..e };
                        if changes_masks(masks, action) {
                            outdated(f)
                        } else {
                            f
                        }
                    },
                }
            },
        }
    }
}

/// `e` after edits of the masks panel, in order.
pub open spec fn masks_edited(
    e: EditorModel,
    actions: Seq<MaskAction>,
    shapes: MaskShapes,
) -> EditorModel
    decreases actions.len(),
{
    if actions.len() == 0 {
        e
    } else {
        mask_edited(masks_edited(e, actions.drop_last(), shapes), actions.last(), shapes)
    }
}

/// The layer that is selected in the current composition: the positions of
/// the composition and the layer.
pub open spec fn selected_at(e: EditorModel) -> Option<(int, int)> {
    match (e.selected_layer, current(e)) {
        (Some(id), Some(i)) => match layer_index(e.project.compositions[i].layers, id) {
            Some(k) => Some((i, k)),
            None => None,
        },
        _ => None,
    }
}

/// `e` with other effects on the layer at `at`.
pub open spec fn with_effects_at(
    e: EditorModel,
    at: (int, int),
    effects: Seq<EffectModel>,
) -> EditorModel {
    let c = e.project.compositions[at.0];
    EditorModel {
        project: with_comp_at(
            e.project,
            at.0,
            CompositionModel {
                layers: c.layers.update(at.1, LayerModel { effects, ..c.layers[at.1] }),
                ..c
            },
        ),
        ..e
    }
}

/// `e` after edits of the selected layer's effects.
pub open spec fn effects_edited(e: EditorModel, edits: Seq<EffectsEdit>) -> EditorModel {
    match selected_at(e) {
        Some(at) => if edits.len() == 0 {
            e
        } else {
            let effects = e.project.compositions[at.0].layers[at.1].effects;
            outdated(with_effects_at(e, at, effects_after(effects, edits, e.manifests)))
        },
        None => e,
    }
}

/// `base` with the values of `over` in place of its own.
pub open spec fn overlaid(
    base: Map<Seq<char>, ParamValueModel>,
    over: Map<Seq<char>, ParamValueModel>,
) -> Map<Seq<char>, ParamValueModel> {
    base.union_prefer_right(over)
}

/// The effect that one entry of a preset makes.
pub open spec fn preset_effect_model(
    manifests: Seq<EffectManifest>,
    p: PresetEffectModel,
) -> EffectModel {
    let base = fresh_effect(manifests, p.id);
    EffectModel { values: overlaid(base.values, p.values), ..base }
}

/// `effects` with those of a preset behind them.
pub open spec fn with_preset(
    effects: Seq<EffectModel>,
    manifests: Seq<EffectManifest>,
    preset: Seq<PresetEffectModel>,
) -> Seq<EffectModel> {
    effects + preset.map_values(|p: PresetEffectModel| preset_effect_model(manifests, p))
}

/// `e` with a preset applied to the selected layer. Without such a preset or a
/// selected layer nothing happens.
pub open spec fn preset_applied(e: EditorModel, index: int) -> EditorModel {
    match selected_at(e) {
        Some(at) => if 0 <= index < e.presets.len() {
            let effects = e.project.compositions[at.0].layers[at.1].effects;
            outdated(
                with_effects_at(
                    e,
                    at,
                    with_preset(effects, e.manifests, views(e.presets[index].effects@)),
                ),
            )
        } else {
            e
        },
        None => e,
    }
}

fn overlay(values: &mut ParamValues, over: &ParamValues)
    ensures
        final(values)@ == overlaid(old(values)@, over@),
{
    let ghost base = values@;
    let entries = over.iter();
    let ghost done = |n: int| Map::new(
        |id: Seq<char>|
            base.contains_key(id) || exists|k: int| 0 <= k < n && (#[trigger] entries@[k]).0@ == id,
        |id: Seq<char>|
            if exists|k: int| 0 <= k < n && (#[trigger] entries@[k]).0@ == id {
                over@[id]
            } else {
                base[id]
            },
    );
    let mut i: usize = 0;
    assert(done(0) =~= base);
    while i < entries.len()
        invariant
            i <= entries.len(),
            values@ == done(i as int),
            done == |n: int|
                Map::new(
                    |id: Seq<char>|
                        base.contains_key(id) || exists|k: int|
                            0 <= k < n && (#[trigger] entries@[k]).0@ == id,
                    |id: Seq<char>|
                        if exists|k: int| 0 <= k < n && (#[trigger] entries@[k]).0@ == id {
                            over@[id]
                        } else {
                            base[id]
                        },
                ),
            forall|k: int|
                0 <= k < entries.len() ==> over@.contains_key((#[trigger] entries@[k]).0@)
                    && over@[entries@[k].0@] == entries@[k].1@,
        decreases entries.len() - i,
    {
        let id = entries[i].0.clone();
        let value = entries[i].1.duplicate();
        values.set(id, value);
        proof {
            let next = done(i + 1);
            let here = entries@[i as int].0@;
            assert forall|x: Seq<char>| #[trigger] next.contains_key(x) == values@.contains_key(
                x,
            ) by {
                if x == here {
                    assert(entries@[i as int].0@ == x);
                }
                if next.contains_key(x) && !base.contains_key(x) && x != here {
                    let k = choose|k: int| 0 <= k < i + 1 && (#[trigger] entries@[k]).0@ == x;
                    assert(0 <= k < i);
                }
            }
            assert(values@ =~= next);
        }
        i = i + 1;
    }
    proof {
        let all = done(entries.len() as int);
        assert forall|x: Seq<char>| over@.contains_key(x) == exists|k: int|
            0 <= k < entries.len() && (#[trigger] entries@[k]).0@ == x by {}
        assert(all =~= overlaid(base, over@));
    }
}

/// The effects that a preset makes.
pub fn preset_effects(preset: &EffectPreset, manifests: &ManifestRegistry) -> (r: Vec<Effect>)
    ensures
        views(r@) == views(preset.effects@).map_values(
            |p: PresetEffectModel| preset_effect_model(manifests@, p),
        ),
{
    let ghost target = views(preset.effects@).map_values(
        |p: PresetEffectModel| preset_effect_model(manifests@, p),
    );
    let mut out: Vec<Effect> = Vec::new();
    let mut i: usize = 0;
    while i < preset.effects.len()
        invariant
            i <= preset.effects.len(),
            out.len() == i,
            target == views(preset.effects@).map_values(
                |p: PresetEffectModel| preset_effect_model(manifests@, p),
            ),
            forall|k: int| 0 <= k < i ==> (#[trigger] out@[k])@ == target[k],
        decreases preset.effects.len() - i,
    {
        let p = &preset.effects[i];
        let mut e = make_effect(manifests, &p.id);
        overlay(&mut e.values, &p.values);
        out.push(e);
        assert(views(preset.effects@)[i as int] == p@);
        i = i + 1;
    }
    assert(views(out@) =~= target);
    out
}

impl Editor {
    /// The editor as it starts.
    pub fn new(manifests: ManifestRegistry, presets: PresetRegistry) -> (r: Self)
        ensures
            r@ == new_editor(manifests@, presets@, r@.playhead.looked_at),
            call_ensures(Instant::now, (), r@.playhead.looked_at),
            current(r@) == Some(0int),
    {
        let (project, comp_id) = default_project(&manifests);
        Editor {
            project,
            comp_id,
            playhead: Playhead::new(Framerate::new(30, 1), 600),
            preview_scale: PreviewScale { divisor: 1 },
            selected_layer: None,
            manifests,
            presets,
            shader_error: None,
            render_dirty: true,
            cache: CacheReset::Keep,
            graph_editor_open: false,
            render_region: None,
            region_anchor: None,
            pen: PenState::default(),
            help_open_for: None,
            project_path: None,
            audio: AudioDrive::new(),
            pending_file: None,
            export_dialog_open: false,
            export_options: ExportOptions::default(),
            export_running: false,
            export_status: ExportStatus::default(),
        }
    }

    pub(crate) fn outdate(&mut self)
        ensures
            final(self)@ == outdated(old(self)@),
    {
        self.render_dirty = true;
        if self.cache != CacheReset::All {
            self.cache = CacheReset::Current;
        }
    }

    /// Asks for a file. Nothing happens while one is being picked already.
    /// Returns whether picking begins.
    pub fn start_file_pick(&mut self, kind: PendingFileKind) -> (r: bool)
        ensures
            final(self)@ == picking(old(self)@, kind),
            r == (old(self)@.pending_file is None),
    {
        if self.pending_file.is_some() {
            return false;
        }
        self.pending_file = Some(kind);
        true
    }

    fn edit_current(&mut self, action: LayerAction)
        requires
            !(action is Select || action is ImportImage || action is ImportVideo
                || action is ImportAudio || action is Delete),
            adds_layer(action) ==> room_for(old(self)@, 1),
        ensures
            final(self)@ == layer_edited(old(self)@, action),
    {
        if let Some(comp) = self.project.composition_mut(self.comp_id) {
            let added = edit_composition(comp, action);
            if let Some(id) = added {
                self.selected_layer = Some(id);
            }
            match action {
                LayerAction::SetCompFramerate(num, den) => {
                    self.playhead.set_framerate(Framerate::new(num, den));
                },
                LayerAction::SetCompDurationFrames(frames) => {
                    self.playhead.set_duration_frames(frames);
                },
                _ => {},
            }
        }
    }

    fn delete_layer(&mut self, id: LayerId)
        ensures
            final(self)@ == layer_deleted(old(self)@, id),
    {
        let mut was_audio = false;
        if let Some(comp) = self.project.composition(self.comp_id) {
            if let Some(l) = comp.layer(id) {
                if let LayerKind::Audio { .. } = l.kind {
                    was_audio = true;
                }
            }
        }
        if let Some(comp) = self.project.composition_mut(self.comp_id) {
            edit_composition(comp, LayerAction::Delete(id));
        }
        if let Some(s) = self.selected_layer {
            if s == id {
                self.selected_layer = None;
            }
        }
        if was_audio {
            self.audio.bus_dirty = true;
            self.audio.open = false;
        }
    }

    /// Applies one edit of the layer panel.
    pub fn apply_layer_action(&mut self, action: LayerAction)
        requires
            adds_layer(action) ==> room_for(old(self)@, 1),
        ensures
            final(self)@ == layer_edited(old(self)@, action),
    {
        match action {
            LayerAction::Select(id) => {
                self.selected_layer = id;
            },
            LayerAction::ImportImage => {
                self.start_file_pick(PendingFileKind::ImportImage);
            },
            LayerAction::ImportVideo => {
                self.start_file_pick(PendingFileKind::ImportVideo);
            },
            LayerAction::ImportAudio => {
                self.start_file_pick(PendingFileKind::ImportAudio);
            },
            LayerAction::Delete(id) => self.delete_layer(id),
            _ => self.edit_current(action),
        }
    }

    /// Whether the current composition has room for the layers that the edits
    /// add.
    pub fn has_room(&self, actions: &Vec<LayerAction>) -> (r: bool)
        ensures
            r == room_for(self@, layers_added(actions@) as int),
    {
        broadcast use group_views;

        let mut added: u64 = 0;
        let mut i: usize = actions.len();
        assert(actions@.skip(i as int) =~= Seq::<LayerAction>::empty());
        while i > 0
            invariant
                i <= actions.len(),
                added == layers_added(actions@.skip(i as int)),
                added <= actions.len() - i,
            decreases i,
        {
            i = i - 1;
            assert(actions@.skip(i as int).drop_first() =~= actions@.skip(i + 1));
            match actions[i] {
                LayerAction::AddSolid | LayerAction::AddAdjustment => {
                    added = added + 1;
                },
                _ => {},
            }
        }
        assert(actions@.skip(0) =~= actions@);
        match self.project.composition(self.comp_id) {
            Some(comp) => added <= 0xffff_ffff - comp.next_layer_id as u64,
            None => true,
        }
    }

    /// Applies edits of the layer panel, in order.
    pub fn apply_layer_actions(&mut self, actions: &Vec<LayerAction>)
        requires
            room_for(old(self)@, layers_added(actions@) as int),
        ensures
            final(self)@ == if actions@.len() == 0 {
                old(self)@
            } else {
                outdated(layers_edited(old(self)@, actions@))
            },
    {
        if actions.len() == 0 {
            return;
        }
        let ghost start = self@;
        let mut i: usize = 0;
        assert(actions@.skip(0) =~= actions@);
        while i < actions.len()
            invariant
                i <= actions.len(),
                room_for(self@, layers_added(actions@.skip(i as int)) as int),
                self@ == layers_edited(start, actions@.take(i as int)),
            decreases actions.len() - i,
        {
            proof {
                assert(actions@.take(i + 1).drop_last() =~= actions@.take(i as int));
                let rest = actions@.skip(i as int);
                assert(rest.drop_first() =~= actions@.skip(i + 1));
                layer_edit_keeps(self@, actions@[i as int], layers_added(rest) as int);
            }
            self.apply_layer_action(actions[i]);
            i = i + 1;
        }
        assert(actions@.take(i as int) =~= actions@);
        self.outdate();
    }

    /// Applies one edit of the masks panel.
    pub fn apply_mask_action(&mut self, action: MaskAction, shapes: MaskShapes)
        ensures
            final(self)@ == mask_edited(old(self)@, action, shapes),
    {
        broadcast use group_views;

        let layer_id = action.layer();
        if let MaskAction::StartPen(_) = action {
            self.pen.start(layer_id);
            return;
        }
        let mut changed = false;
        let mut found = false;
        proof {
            first_where_is_first(self@.project.compositions, is_comp(self.comp_id), 0);
        }
        if let Some(comp) = self.project.composition_mut(self.comp_id) {
            if let Some(layer) = comp.layer_mut(layer_id) {
                changed = edit_masks(&mut layer.masks, action, shapes);
                found = true;
            }
        }
        assert(!found ==> self@.project.compositions =~= old(self)@.project.compositions);
        if changed {
            self.outdate();
        }
    }

    /// Applies edits of the masks panel, in order.
    pub fn apply_mask_actions(&mut self, actions: &Vec<MaskAction>, shapes: MaskShapes)
        ensures
            final(self)@ == masks_edited(old(self)@, actions@, shapes),
    {
        let ghost start = self@;
        let mut i: usize = 0;
        while i < actions.len()
            invariant
                i <= actions.len(),
                self@ == masks_edited(start, actions@.take(i as int), shapes),
            decreases actions.len() - i,
        {
            proof {
                assert(actions@.take(i + 1).drop_last() =~= actions@.take(i as int));
            }
            self.apply_mask_action(actions[i], shapes);
            i = i + 1;
        }
        assert(actions@.take(i as int) =~= actions@);
    }

    /// Applies edits of the effects of the selected layer.
    pub fn apply_effects_actions(&mut self, actions: &Vec<EffectsAction>)
        ensures
            final(self)@ == effects_edited(old(self)@, views(actions@)),
    {
        broadcast use group_views;

        if actions.len() == 0 {
            return;
        }
        let layer_id = match self.selected_layer {
            Some(id) => id,
            None => {
                return;
            },
        };
        let mut found = false;
        proof {
            first_where_is_first(self@.project.compositions, is_comp(self.comp_id), 0);
        }
        if let Some(comp) = self.project.composition_mut(self.comp_id) {
            if let Some(layer) = comp.layer_mut(layer_id) {
                apply_to_effects(&mut layer.effects, actions, &self.manifests);
                found = true;
            }
        }
        assert(!found ==> self@.project.compositions =~= old(self)@.project.compositions);
        if found {
            self.outdate();
        }
    }

    /// Applies the preset at `index` to the selected layer.
    pub fn apply_preset(&mut self, index: usize)
        ensures
            final(self)@ == preset_applied(old(self)@, index as int),
    {
        if index >= self.presets.presets.len() {
            return;
        }
        let layer_id = match self.selected_layer {
            Some(id) => id,
            None => {
                return;
            },
        };
        let mut more = preset_effects(&self.presets.presets[index], &self.manifests);
        let ghost added = more@;
        let mut found = false;
        proof {
            first_where_is_first(self@.project.compositions, is_comp(self.comp_id), 0);
        }
        if let Some(comp) = self.project.composition_mut(self.comp_id) {
            if let Some(layer) = comp.layer_mut(layer_id) {
                let ghost before = layer.effects@;
                layer.effects.append(&mut more);
                assert(views(layer.effects@) =~= views(before) + views(added));
                found = true;
            }
        }
        assert(!found ==> self@.project.compositions =~= old(self)@.project.compositions);
        if found {
            self.outdate();
        }
    }
}

/// A preset only adds effects behind those that a layer has, one for each of
/// its entries, and each holds the preset's values.
pub proof fn preset_adds_behind(
    effects: Seq<EffectModel>,
    manifests: Seq<EffectManifest>,
    preset: Seq<PresetEffectModel>,
    i: int,
    id: Seq<char>,
)
    requires
        0 <= i < preset.len(),
        preset[i].values.contains_key(id),
    ensures
        with_preset(effects, manifests, preset).len() == effects.len() + preset.len(),
        with_preset(effects, manifests, preset).take(effects.len() as int) == effects,
        with_preset(effects, manifests, preset)[effects.len() + i].values.contains_key(id),
        with_preset(effects, manifests, preset)[effects.len() + i].values[id]
            == preset[i].values[id],
{
    assert(with_preset(effects, manifests, preset).take(effects.len() as int) =~= effects);
}

/// A drag inside the picture makes the region whose opposite corners it joins,
/// whichever corner it starts from.
pub proof fn region_joins_the_corners(a: Point, b: Point)
    requires
        less(a.x, b.x),
        less(a.y, b.y),
        !less(a.x, zero()) && !less(one(), b.x),
        !less(a.y, zero()) && !less(one(), b.y),
    ensures
        region_between(a, b) == (RegionRect { u_min: a.x, v_min: a.y, u_max: b.x, v_max: b.y }),
        region_between(b, a) == region_between(a, b),
        region_between(Point { x: a.x, y: b.y }, Point { x: b.x, y: a.y }) == region_between(a, b),
{
}

/// Whether `f` has the compositions of `e` but for the one at `i`.
pub open spec fn only_comp_differs(e: EditorModel, f: EditorModel, i: int) -> bool {
    let (p, q) = (e.project.compositions, f.project.compositions);
    &&& q.len() == p.len()
    &&& forall|j: int| 0 <= j < p.len() && j != i ==> q[j] == #[trigger] p[j]
    &&& ProjectModel { compositions: p, ..f.project } == e.project
}

/// Edits of effects are made on the selected layer of the current composition
/// and nowhere else, and the picture is drawn again.
pub proof fn effects_are_edited_on_the_selected_layer(
    e: EditorModel,
    edits: Seq<EffectsEdit>,
    at: (int, int),
    k: int,
)
    requires
        selected_at(e) == Some(at),
        edits.len() > 0,
        0 <= k < e.project.compositions[at.0].layers.len(),
        k != at.1,
    ensures
        ({
            let f = effects_edited(e, edits);
            let (c, d) = (e.project.compositions[at.0], f.project.compositions[at.0]);
            let l = c.layers[at.1];
            &&& only_comp_differs(e, f, at.0)
            &&& d.layers.len() == c.layers.len()
            &&& d.layers[k] == c.layers[k]
            &&& d.layers[at.1].effects == effects_after(l.effects, edits, e.manifests)
            &&& LayerModel { effects: l.effects, ..d.layers[at.1] } == l
            &&& CompositionModel { layers: c.layers, ..d } == c
            &&& f.render_dirty
            &&& f.cache != CacheReset::Keep
            &&& f.selected_layer == e.selected_layer
            &&& f.playhead == e.playhead
        }),
{
    selected_is_there(e);
}

proof fn selected_is_there(e: EditorModel)
    ensures
        selected_at(e) matches Some((i, k)) ==> 0 <= i < e.project.compositions.len() && 0 <= k
            < e.project.compositions[i].layers.len() && e.project.compositions[i].id == e.comp_id
            && e.selected_layer == Some(e.project.compositions[i].layers[k].id),
{
    first_where_is_first(e.project.compositions, is_comp(e.comp_id), 0);
    if let (Some(id), Some(i)) = (e.selected_layer, current(e)) {
        first_where_is_first(e.project.compositions[i].layers, is_layer(id), 0);
    }
}

/// Without edits, and without a selected layer, no effect changes.
pub proof fn effects_stay_without_edits(e: EditorModel, edits: Seq<EffectsEdit>, index: int)
    ensures
        edits.len() == 0 || selected_at(e) is None ==> effects_edited(e, edits) == e,
        !(0 <= index < e.presets.len()) || selected_at(e) is None ==> preset_applied(e, index) == e,
{
}

/// A preset goes behind the effects of the selected layer, and nowhere else.
pub proof fn preset_goes_to_the_selected_layer(e: EditorModel, index: int, at: (int, int), k: int)
    requires
        selected_at(e) == Some(at),
        0 <= index < e.presets.len(),
        0 <= k < e.project.compositions[at.0].layers.len(),
        k != at.1,
    ensures
        ({
            let f = preset_applied(e, index);
            let (c, d) = (e.project.compositions[at.0], f.project.compositions[at.0]);
            let l = c.layers[at.1];
            &&& only_comp_differs(e, f, at.0)
            &&& d.layers[k] == c.layers[k]
            &&& d.layers[at.1].effects.take(l.effects.len() as int) == l.effects
            &&& d.layers[at.1].effects.len() == l.effects.len() + e.presets[index].effects@.len()
            &&& LayerModel { effects: l.effects, ..d.layers[at.1] } == l
            &&& f.render_dirty
        }),
{
    selected_is_there(e);
    let l = e.project.compositions[at.0].layers[at.1];
    assert(with_preset(l.effects, e.manifests, views(e.presets[index].effects@)).take(
        l.effects.len() as int,
    ) =~= l.effects);
}

/// An effect of a preset has the id that the preset names, is on, and has the
/// usual values where the preset names none.
pub proof fn preset_effect_fills_up(
    manifests: Seq<EffectManifest>,
    p: PresetEffectModel,
    id: Seq<char>,
)
    ensures
        preset_effect_model(manifests, p).id == p.id,
        preset_effect_model(manifests, p).enabled,
        p.values.contains_key(id) ==> stored(preset_effect_model(manifests, p).values, id) == Some(
            p.values[id],
        ),
        !p.values.contains_key(id) ==> stored(preset_effect_model(manifests, p).values, id)
            == stored(fresh_effect(manifests, p.id).values, id),
{
    fresh_effect_is_as_asked(manifests, p.id);
}

/// Selecting a layer changes the selection only. Asking for a file to import
/// waits for that file, unless one is waited for already.
pub proof fn selecting_and_importing_edit_nothing(e: EditorModel, id: Option<LayerId>)
    ensures
        layer_edited(e, LayerAction::Select(id)).selected_layer == id,
        (EditorModel {
            selected_layer: e.selected_layer,
            ..layer_edited(e, LayerAction::Select(id))
        }) == e,
        e.pending_file is Some ==> layer_edited(e, LayerAction::ImportImage) == e && layer_edited(
            e,
            LayerAction::ImportVideo,
        ) == e && layer_edited(e, LayerAction::ImportAudio) == e,
        e.pending_file is None ==> layer_edited(e, LayerAction::ImportImage).pending_file == Some(
            PendingFileKind::ImportImage,
        ) && layer_edited(e, LayerAction::ImportVideo).pending_file == Some(
            PendingFileKind::ImportVideo,
        ) && layer_edited(e, LayerAction::ImportAudio).pending_file == Some(
            PendingFileKind::ImportAudio,
        ),
        layer_edited(e, LayerAction::ImportImage).project == e.project,
        layer_edited(e, LayerAction::ImportVideo).project == e.project,
        layer_edited(e, LayerAction::ImportAudio).project == e.project,
{
}

/// Every other edit of the layer panel is made on the current composition and
/// no other. A layer that is added becomes the selected one.
pub proof fn layers_are_edited_in_the_current_composition(
    e: EditorModel,
    action: LayerAction,
    i: int,
)
    requires
        current(e) == Some(i),
        !(action is Select || action is ImportImage || action is ImportVideo
            || action is ImportAudio),
    ensures
        only_comp_differs(e, layer_edited(e, action), i),
        layer_edited(e, action).project.compositions[i] == comp_after(
            e.project.compositions[i],
            action,
        ),
        adds_layer(action) ==> layer_edited(e, action).selected_layer == Some(
            LayerId(e.project.compositions[i].next_layer_id),
        ),
        !adds_layer(action) && !(action is Delete) ==> layer_edited(e, action).selected_layer
            == e.selected_layer,
        layer_edited(e, action).comp_id == e.comp_id,
{
    first_where_is_first(e.project.compositions, is_comp(e.comp_id), 0);
}

/// The playhead follows the rate and the length of the composition; the other
/// edits leave it where it is.
pub proof fn playhead_follows_the_composition(
    e: EditorModel,
    action: LayerAction,
    num: u32,
    den: u32,
    frames: u32,
)
    requires
        current(e) is Some,
    ensures
        layer_edited(e, LayerAction::SetCompFramerate(num, den)).playhead == with_framerate(
            e.playhead,
            Framerate(Rational { num, den }),
        ),
        layer_edited(e, LayerAction::SetCompDurationFrames(frames)).playhead == with_duration(
            e.playhead,
            frames,
        ),
        !(action is SetCompFramerate || action is SetCompDurationFrames) ==> layer_edited(
            e,
            action,
        ).playhead == e.playhead,
{
}

/// Deleting the selected layer leaves none selected, and deleting another
/// keeps the selection. Deleting an audio layer stops the sound until it is
/// mixed anew.
pub proof fn deleting_deselects(e: EditorModel, id: LayerId, i: int)
    requires
        current(e) == Some(i),
    ensures
        ({
            let f = layer_edited(e, LayerAction::Delete(id));
            &&& f.selected_layer != Some(id)
            &&& e.selected_layer != Some(id) ==> f.selected_layer == e.selected_layer
            &&& match layer_index(e.project.compositions[i].layers, id) {
                Some(k) => if e.project.compositions[i].layers[k].kind is Audio {
                    f.audio.bus_dirty && !f.audio.open
                } else {
                    f.audio == e.audio
                },
                None => f.audio == e.audio,
            }
        }),
{
}

/// Edits are made one after the other.
pub proof fn layer_edits_follow_each_other(
    e: EditorModel,
    a: Seq<LayerAction>,
    b: Seq<LayerAction>,
)
    ensures
        layers_edited(e, a + b) == layers_edited(layers_edited(e, a), b),
    decreases b.len(),
{
    if b.len() == 0 {
        assert(a + b =~= a);
    } else {
        assert((a + b).drop_last() =~= a + b.drop_last());
        layer_edits_follow_each_other(e, a, b.drop_last());
    }
}

/// Edits of masks are made one after the other.
pub proof fn mask_edits_follow_each_other(
    e: EditorModel,
    a: Seq<MaskAction>,
    b: Seq<MaskAction>,
    shapes: MaskShapes,
)
    ensures
        masks_edited(e, a + b, shapes) == masks_edited(masks_edited(e, a, shapes), b, shapes),
    decreases b.len(),
{
    if b.len() == 0 {
        assert(a + b =~= a);
    } else {
        assert((a + b).drop_last() =~= a + b.drop_last());
        mask_edits_follow_each_other(e, a, b.drop_last(), shapes);
    }
}

/// An edit of masks changes the masks of the layer that it names and no other
/// layer. The picture is drawn again if a mask changed.
pub proof fn masks_are_edited_on_their_layer(
    e: EditorModel,
    action: MaskAction,
    shapes: MaskShapes,
    i: int,
    k: int,
    j: int,
)
    requires
        !(action is StartPen),
        current(e) == Some(i),
        layer_index(e.project.compositions[i].layers, mask_layer(action)) == Some(k),
        0 <= j < e.project.compositions[i].layers.len(),
        j != k,
    ensures
        ({
            let f = mask_edited(e, action, shapes);
            let (c, d) = (e.project.compositions[i], f.project.compositions[i]);
            let l = c.layers[k];
            &&& only_comp_differs(e, f, i)
            &&& d.layers.len() == c.layers.len()
            &&& d.layers[j] == c.layers[j]
            &&& d.layers[k].masks == masks_after(l.masks, action, shapes)
            &&& LayerModel { masks: l.masks, ..d.layers[k] } == l
            &&& changes_masks(l.masks, action) ==> f.render_dirty
            &&& !changes_masks(l.masks, action) ==> f.render_dirty == e.render_dirty
        }),
{
    first_where_is_first(e.project.compositions, is_comp(e.comp_id), 0);
    first_where_is_first(e.project.compositions[i].layers, is_layer(mask_layer(action)), 0);
}

/// Starting the pen takes it to its layer with no point drawn yet, and changes
/// nothing else.
pub proof fn pen_starts_empty(e: EditorModel, layer: LayerId, shapes: MaskShapes)
    ensures
        ({
            let f = mask_edited(e, MaskAction::StartPen(layer), shapes);
            &&& f.pen.layer == Some(layer)
            &&& f.pen.anchors.len() == 0
            &&& EditorModel { pen: e.pen, ..f } == e
        }),
{
}

/// The layer that an edit of masks names.
pub proof fn mask_edits_name_their_layer(
    layer: LayerId,
    index: usize,
    mode: MaskMode,
    value: Scalar,
)
    ensures
        mask_layer(MaskAction::AddRectangle(layer)) == layer,
        mask_layer(MaskAction::AddEllipse(layer)) == layer,
        mask_layer(MaskAction::Delete { layer, index }) == layer,
        mask_layer(MaskAction::SetMode { layer, index, mode }) == layer,
        mask_layer(MaskAction::SetOpacity { layer, index, value }) == layer,
        mask_layer(MaskAction::SetFeather { layer, index, value }) == layer,
        mask_layer(MaskAction::SetExpansion { layer, index, value }) == layer,
{
}

/// The project that the editor starts with has one composition, which lasts as
/// long as the playhead and holds one layer over its whole length.
pub proof fn editor_starts_with_a_layer(
    manifests: Seq<EffectManifest>,
    presets: Seq<EffectPreset>,
    now: Instant,
)
    ensures
        ({
            let e = new_editor(manifests, presets, now);
            let c = e.project.compositions[0];
            &&& e.project.compositions.len() == 1
            &&& e.project.assets.len() == 0
            &&& current(e) == Some(0int)
            &&& c.layers.len() == 1
            &&& c.layers[0].kind is Solid
            &&& c.layers[0].in_frame == 0
            &&& c.layers[0].out_frame == c.duration_frames
            &&& c.layers[0].id.0 < c.next_layer_id
            &&& c.id.0 < e.project.next_comp_id
            &&& c.layers[0].effects == seq![fresh_effect(manifests, "gain"@)]
            &&& e.playhead.duration_frames == c.duration_frames
            &&& e.playhead.framerate == c.framerate
            &&& e.playhead.current_frame == 0
            &&& e.render_dirty
            &&& e.audio.bus_dirty && !e.audio.open
        }),
{
    let e = new_editor(manifests, presets, now);
    let blank = CompositionModel {
        duration_frames: 600,
        ..crate::model::composition::new_composition(CompId(1), "preview"@, 1280, 720)
    };
    let c = with_layer(blank, "background"@, LayerKind::Solid { color: slate() }, 0, 600);
    assert(is_layer(LayerId(1))(c.layers[0]));
    first_where_is_first(c.layers, is_layer(LayerId(1)), 0);
    assert(is_comp(CompId(1))(e.project.compositions[0]));
    first_where_is_first(e.project.compositions, is_comp(CompId(1)), 0);
    assert(e.project.compositions[0].layers[0].effects =~= seq![fresh_effect(manifests, "gain"@)]);
}

/// What is outdated is drawn again. Frames of the current composition are
/// dropped, and all frames if all had to be dropped before.
pub proof fn outdated_frames_are_dropped(e: EditorModel)
    ensures
        outdated(e).render_dirty,
        e.cache == CacheReset::All ==> outdated(e).cache == CacheReset::All,
        e.cache != CacheReset::All ==> outdated(e).cache == CacheReset::Current,
        (EditorModel { render_dirty: e.render_dirty, cache: e.cache, ..outdated(e) }) == e,
        outdated(outdated(e)) == outdated(e),
{
}

/// Without a current composition an edit of layers changes no project, and
/// deleting stops no sound.
pub proof fn nothing_is_edited_without_a_composition(e: EditorModel, action: LayerAction)
    requires
        current(e) is None,
    ensures
        layer_edited(e, action).project == e.project,
        layer_edited(e, action).audio == e.audio,
        layer_edited(e, action).playhead == e.playhead,
        layer_edited(e, action).render_dirty == e.render_dirty,
{
}

/// The picture of the first project has the size and the rate of a new
/// composition, and its sound begins at the start.
pub proof fn editor_starts_at_the_start(
    manifests: Seq<EffectManifest>,
    presets: Seq<EffectPreset>,
    now: Instant,
)
    ensures
        ({
            let e = new_editor(manifests, presets, now);
            let c = e.project.compositions[0];
            let p = with_composition(new_project(), c.name, c.width, c.height);
            &&& e.audio.emit_cursor == 0 && e.audio.start_frame == 0
            &&& ProjectModel { compositions: p.compositions, ..e.project } == p
            &&& c.id == p.compositions[0].id
            &&& c.framerate == p.compositions[0].framerate
            &&& c.background == p.compositions[0].background
            &&& c.width == 1280 && c.height == 720
            &&& e.preview_scale.divisor == 1
            &&& e.selected_layer is None
            &&& e.pending_file is None
            &&& e.project_path is None
            &&& !e.export_running && !e.export_dialog_open && !e.graph_editor_open
            &&& e.render_region is None && e.region_anchor is None && e.pen.layer is None
        }),
{
    let e = new_editor(manifests, presets, now);
    let c = e.project.compositions[0];
    let blank = CompositionModel {
        duration_frames: 600,
        ..crate::model::composition::new_composition(CompId(1), "preview"@, 1280, 720)
    };
    let d = with_layer(blank, "background"@, LayerKind::Solid { color: slate() }, 0, 600);
    assert(is_layer(LayerId(1))(d.layers[0]));
    first_where_is_first(d.layers, is_layer(LayerId(1)), 0);
    let p = with_composition(new_project(), c.name, c.width, c.height);
    assert(e.project =~= ProjectModel { compositions: e.project.compositions, ..p });
}

} // verus!
