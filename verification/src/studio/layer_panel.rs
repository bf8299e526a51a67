//! The layer panel: its edits and what they do to a composition.

use crate::model::composition::{
    added_layers_have_unique_ids, is_layer, layer_ids_unique, layer_index, layer_moved_down,
    layer_moved_up, with_layer, without_layer, Composition, CompositionModel,
};
use crate::model::layer::{Layer, LayerId, LayerKind, LayerModel};
use crate::model::time::Framerate;
use crate::scalar::{one, scalar, Rgba, Scalar};
use crate::seqs::{first_where_is_first, group_views, views};
use crate::text::cat;
use vstd::prelude::*;

verus! {

/// Edits of the layer panel.
#[derive(Clone, Copy, Debug, PartialEq, Eq, Structural)]
pub enum LayerAction {
    Select(Option<LayerId>),
    AddSolid,
    AddAdjustment,
    /// Pick a picture and add it as a layer.
    ImportImage,
    /// Pick a video and add it as a layer.
    ImportVideo,
    /// Pick an audio file and add it as a layer.
    ImportAudio,
    Delete(LayerId),
    /// Show the layer further up in the panel.
    MoveUp(LayerId),
    /// Show the layer further down in the panel.
    MoveDown(LayerId),
    SetTimeOffset(LayerId, i32),
    SetTimeScale(LayerId, Scalar),
    SetCompWidth(u32),
    SetCompHeight(u32),
    /// Frames per second as numerator and denominator.
    SetCompFramerate(u32, u32),
    SetCompDurationFrames(u32),
    SetCompBackground(Rgba),
}

/// Opaque middle grey.
pub open spec fn grey() -> Rgba {
    Rgba {
        r: scalar(0x3f00_0000),
        g: scalar(0x3f00_0000),
        b: scalar(0x3f00_0000),
        a: one(),
    }
}

/// Whether the edit adds a layer.
pub open spec fn adds_layer(action: LayerAction) -> bool {
    action is AddSolid || action is AddAdjustment
}

/// How many layers the edits add.
pub open spec fn layers_added(actions: Seq<LayerAction>) -> nat
    decreases actions.len(),
{
    if actions.len() == 0 {
        0
    } else {
        layers_added(actions.drop_first()) + (if adds_layer(actions.first()) {
            1nat
        } else {
            0nat
        })
    }
}

/// `c` with one layer changed, if it is there.
pub open spec fn with_layer_changed(
    c: CompositionModel,
    id: LayerId,
    change: spec_fn(LayerModel) -> LayerModel,
) -> CompositionModel {
    match layer_index(c.layers, id) {
        Some(i) => CompositionModel { layers: c.layers.update(i, change(c.layers[i])), ..c },
        None => c,
    }
}

/// `l`, ending at `end` if it ended later.
pub open spec fn ending_by(l: LayerModel, end: u32) -> LayerModel {
    LayerModel {
        out_frame: if l.out_frame > end {
            end
        } else {
            l.out_frame
        },
        ..l
    }
}

/// `c` with another duration, of at least one frame. Layers that go beyond it
/// are cut at the new end.
pub open spec fn with_comp_duration(c: CompositionModel, frames: u32) -> CompositionModel {
    let duration_frames = if frames == 0 {
        1
    } else {
        frames
    };
    CompositionModel {
        duration_frames,
        layers: c.layers.map_values(|l: LayerModel| ending_by(l, duration_frames)),
        ..c
    }
}

/// `c` after an edit. The panel shows the last layer first, so a layer that
/// moves up there moves toward the end of the list.
pub open spec fn comp_after(c: CompositionModel, action: LayerAction) -> CompositionModel {
    match action {
        LayerAction::AddSolid => with_layer(
            c,
            "Solid"@,
            LayerKind::Solid { color: grey() },
            0,
            c.duration_frames,
        ),
        LayerAction::AddAdjustment => with_layer(
            c,
            "Adjustment"@,
            LayerKind::Adjustment,
            0,
            c.duration_frames,
        ),
        LayerAction::Delete(id) => without_layer(c, id),
        LayerAction::MoveUp(id) => layer_moved_down(c, id),
        LayerAction::MoveDown(id) => layer_moved_up(c, id),
        LayerAction::SetTimeOffset(id, offset) => with_layer_changed(
            c,
            id,
            |l: LayerModel| LayerModel { time_offset_frames: offset, ..l },
        ),
        LayerAction::SetTimeScale(id, scale) => with_layer_changed(
            c,
            id,
            |l: LayerModel| LayerModel { time_scale: scale, ..l },
        ),
        LayerAction::SetCompWidth(width) => CompositionModel { width, ..c },
        LayerAction::SetCompHeight(height) => CompositionModel { height, ..c },
        LayerAction::SetCompFramerate(num, den) => CompositionModel {
            framerate: Framerate(crate::model::time::Rational { num, den }),
            ..c
        },
        LayerAction::SetCompDurationFrames(frames) => with_comp_duration(c, frames),
        LayerAction::SetCompBackground(background) => CompositionModel { background, ..c },
        _ => c,
    }
}

/// No edit of the panel changes which composition it is, makes two layers
/// share an id or gives an id out twice.
pub proof fn edits_keep_ids_unique(c: CompositionModel, action: LayerAction)
    requires
        layer_ids_unique(c),
        adds_layer(action) ==> c.next_layer_id < u32::MAX,
    ensures
        comp_after(c, action).id == c.id,
        layer_ids_unique(comp_after(c, action)),
        comp_after(c, action).next_layer_id == c.next_layer_id + (if adds_layer(action) {
            1int
        } else {
            0int
        }),
{
    let d = comp_after(c, action);
    match action {
        LayerAction::AddSolid => added_layers_have_unique_ids(
            c,
            "Solid"@,
            LayerKind::Solid { color: grey() },
            0,
            c.duration_frames,
        ),
        LayerAction::AddAdjustment => added_layers_have_unique_ids(
            c,
            "Adjustment"@,
            LayerKind::Adjustment,
            0,
            c.duration_frames,
        ),
        LayerAction::Delete(id) => {
            first_where_is_first(c.layers, is_layer(id), 0);
            if let Some(k) = layer_index(c.layers, id) {
                assert forall|i: int| 0 <= i < d.layers.len() implies (#[trigger] d.layers[i]).id.0
                    < d.next_layer_id by {
                    assert(d.layers[i] == c.layers[if i < k {
                        i
                    } else {
                        i + 1
                    }]);
                }
                assert forall|i: int, j: int| 0 <= i < j < d.layers.len() implies (
                #[trigger] d.layers[i]).id != (#[trigger] d.layers[j]).id by {
                    assert(d.layers[i] == c.layers[if i < k {
                        i
                    } else {
                        i + 1
                    }]);
                    assert(d.layers[j] == c.layers[if j < k {
                        j
                    } else {
                        j + 1
                    }]);
                }
            }
        },
        LayerAction::MoveUp(id) => first_where_is_first(c.layers, is_layer(id), 0),
        LayerAction::MoveDown(id) => first_where_is_first(c.layers, is_layer(id), 0),
        LayerAction::SetTimeOffset(id, _) => first_where_is_first(c.layers, is_layer(id), 0),
        LayerAction::SetTimeScale(id, _) => first_where_is_first(c.layers, is_layer(id), 0),
        _ => {},
    }
}

/// After the duration was set, no layer ends beyond it, and a layer that ended
/// within it is unchanged.
pub proof fn cut_layers_fit(c: CompositionModel, frames: u32, i: int)
    requires
        0 <= i < c.layers.len(),
    ensures
        with_comp_duration(c, frames).duration_frames >= 1,
        with_comp_duration(c, frames).layers.len() == c.layers.len(),
        with_comp_duration(c, frames).layers[i].out_frame <= with_comp_duration(
            c,
            frames,
        ).duration_frames,
        c.layers[i].out_frame <= frames ==> with_comp_duration(c, frames).layers[i] == c.layers[i],
{
}

fn cut_layers(layers: &mut Vec<Layer>, end: u32)
    ensures
        views(final(layers)@) == views(old(layers)@).map_values(
            |l: LayerModel| ending_by(l, end),
        ),
{
    let mut i: usize = 0;
    let ghost start = layers@;
    while i < layers.len()
        invariant
            i <= layers.len(),
            layers.len() == start.len(),
            forall|k: int| 0 <= k < i ==> (#[trigger] layers@[k])@ == ending_by(start[k]@, end),
            forall|k: int| i <= k < layers.len() ==> #[trigger] layers@[k] == start[k],
        decreases layers.len() - i,
    {
        if layers[i].out_frame > end {
            layers[i].out_frame = end;
        }
        i = i + 1;
    }
    assert(views(layers@) =~= views(start).map_values(|l: LayerModel| ending_by(l, end)));
}

/// Applies an edit to a composition. Returns the layer that was added.
pub fn edit_composition(comp: &mut Composition, action: LayerAction) -> (r: Option<LayerId>)
    requires
        adds_layer(action) ==> old(comp)@.next_layer_id < u32::MAX,
    ensures
        final(comp)@ == comp_after(old(comp)@, action),
        r == if adds_layer(action) {
            Some(LayerId(old(comp)@.next_layer_id))
        } else {
            None
        },
{
    broadcast use group_views;

    match action {
        LayerAction::AddSolid => {
            let half = Scalar::from_bits(0x3f00_0000);
            let id = comp.add_solid(
                "Solid".to_owned(),
                Rgba { r: half, g: half, b: half, a: Scalar::one() },
            );
            return Some(id);
        },
        LayerAction::AddAdjustment => {
            let dur: u32 = comp.duration_frames;
            let id = comp.add_layer("Adjustment".to_owned(), LayerKind::Adjustment, 0, dur);
            return Some(id);
        },
        LayerAction::Delete(id) => comp.remove_layer(id),
        LayerAction::MoveUp(id) => comp.move_layer_down(id),
        LayerAction::MoveDown(id) => comp.move_layer_up(id),
        LayerAction::SetTimeOffset(id, offset) => {
            if let Some(l) = comp.layer_mut(id) {
                l.time_offset_frames = offset;
            }
        },
        LayerAction::SetTimeScale(id, scale) => {
            if let Some(l) = comp.layer_mut(id) {
                l.time_scale = scale;
            }
        },
        LayerAction::SetCompWidth(w) => {
            comp.width = w;
        },
        LayerAction::SetCompHeight(h) => {
            comp.height = h;
        },
        LayerAction::SetCompFramerate(num, den) => {
            comp.framerate = Framerate::new(num, den);
        },
        LayerAction::SetCompDurationFrames(frames) => {
            let end: u32 = if frames == 0 {
                1
            } else {
                frames
            };
            comp.duration_frames = end;
            cut_layers(&mut comp.layers, end);
        },
        LayerAction::SetCompBackground(rgba) => {
            comp.background = rgba;
        },
        _ => {},
    }
    None
}

/// The sign of a kind of layer in the panel.
pub open spec fn glyph(kind: LayerKind) -> Seq<char> {
    match kind {
        LayerKind::Video { .. } => "▶"@,
        LayerKind::Image { .. } => "◇"@,
        LayerKind::Audio { .. } => "♪"@,
        LayerKind::Solid { .. } => "■"@,
        LayerKind::Null => "○"@,
        LayerKind::Adjustment => "⚙"@,
        LayerKind::Composition { .. } => "⊞"@,
    }
}

/// The sign of a kind of layer in the panel.
pub fn kind_glyph(kind: &LayerKind) -> (r: &'static str)
    ensures
        r@ == glyph(*kind),
{
    match kind {
        LayerKind::Video { .. } => "▶",
        LayerKind::Image { .. } => "◇",
        LayerKind::Audio { .. } => "♪",
        LayerKind::Solid { .. } => "■",
        LayerKind::Null => "○",
        LayerKind::Adjustment => "⚙",
        LayerKind::Composition { .. } => "⊞",
    }
}

/// One row of the panel.
#[derive(Debug, PartialEq, Eq)]
pub struct LayerRow {
    pub id: LayerId,
    pub label: String,
    pub selected: bool,
}

/// What a row shows.
#[verifier::ext_equal]
pub struct LayerRowModel {
    pub id: LayerId,
    pub label: Seq<char>,
    pub selected: bool,
}

impl View for LayerRow {
    type V = LayerRowModel;

    open spec fn view(&self) -> LayerRowModel {
        LayerRowModel { id: self.id, label: self.label@, selected: self.selected }
    }
}

/// The row of a layer.
pub open spec fn layer_row(l: LayerModel, selected: Option<LayerId>) -> LayerRowModel {
    LayerRowModel {
        id: l.id,
        label: glyph(l.kind) + "  "@ + l.name,
        selected: selected == Some(l.id),
    }
}

/// The rows of the panel: the layer on top of the picture comes first.
pub fn layer_rows(comp: &Composition, selected: Option<LayerId>) -> (r: Vec<LayerRow>)
    ensures
        views(r@) == comp@.layers.reverse().map_values(|l: LayerModel| layer_row(l, selected)),
{
    let ghost target = comp@.layers.reverse().map_values(|l: LayerModel| layer_row(l, selected));
    let mut rows: Vec<LayerRow> = Vec::new();
    let mut n: usize = comp.layers.len();
    while n > 0
        invariant
            n <= comp.layers.len(),
            rows.len() == comp.layers.len() - n,
            target == comp@.layers.reverse().map_values(|l: LayerModel| layer_row(l, selected)),
            forall|k: int| 0 <= k < rows.len() ==> (#[trigger] rows@[k])@ == target[k],
        decreases n,
    {
        n = n - 1;
        let l = &comp.layers[n];
        let head = cat(kind_glyph(&l.kind), "  ");
        let label = cat(&head, &l.name);
        let chosen = match selected {
            Some(id) => id == l.id,
            None => false,
        };
        rows.push(LayerRow { id: l.id, label, selected: chosen });
        assert(comp@.layers.reverse()[rows.len() - 1] == l@);
    }
    assert(views(rows@) =~= target);
    rows
}

/// The edit that a click on a row makes: it selects the layer, or none if the
/// layer was selected.
pub fn row_click(row: &LayerRow) -> (r: LayerAction)
    ensures
        r == LayerAction::Select(
            if row.selected {
                None
            } else {
                Some(row.id)
            },
        ),
{
    if row.selected {
        LayerAction::Select(None)
    } else {
        LayerAction::Select(Some(row.id))
    }
}

/// Whether the time controls have an effect on layers of this kind.
pub fn follows_time(kind: &LayerKind) -> (r: bool)
    ensures
        r == (kind is Composition || kind is Video),
{
    match kind {
        LayerKind::Composition { .. } | LayerKind::Video { .. } => true,
        _ => false,
    }
}

/// An edit of a layer's timing changes what it names on that layer, and
/// nothing else of the composition.
pub proof fn timing_edits_touch_one_layer(
    c: CompositionModel,
    id: LayerId,
    offset: i32,
    scale: Scalar,
    i: int,
    j: int,
)
    requires
        layer_index(c.layers, id) == Some(i),
        0 <= j < c.layers.len(),
        j != i,
    ensures
        ({
            let a = comp_after(c, LayerAction::SetTimeOffset(id, offset));
            let b = comp_after(c, LayerAction::SetTimeScale(id, scale));
            let l = c.layers[i];
            &&& a.layers[i].time_offset_frames == offset
            &&& LayerModel { time_offset_frames: l.time_offset_frames, ..a.layers[i] } == l
            &&& a.layers[j] == c.layers[j]
            &&& CompositionModel { layers: c.layers, ..a } == c
            &&& b.layers[i].time_scale == scale
            &&& LayerModel { time_scale: l.time_scale, ..b.layers[i] } == l
            &&& b.layers[j] == c.layers[j]
            &&& CompositionModel { layers: c.layers, ..b } == c
        }),
{
    first_where_is_first(c.layers, is_layer(id), 0);
}

/// An edit of a composition's settings changes the one that it names: putting
/// that back gives the composition as it was.
pub proof fn setting_edits_touch_one_setting(
    c: CompositionModel,
    n: u32,
    d: u32,
    background: Rgba,
)
    ensures
        ({
            let w = comp_after(c, LayerAction::SetCompWidth(n));
            let h = comp_after(c, LayerAction::SetCompHeight(n));
            let r = comp_after(c, LayerAction::SetCompFramerate(n, d));
            let b = comp_after(c, LayerAction::SetCompBackground(background));
            &&& w.width == n
            &&& CompositionModel { width: c.width, ..w } == c
            &&& h.height == n
            &&& CompositionModel { height: c.height, ..h } == c
            &&& r.framerate.0.num == n
            &&& r.framerate.0.den == d
            &&& CompositionModel { framerate: c.framerate, ..r } == c
            &&& b.background == background
            &&& CompositionModel { background: c.background, ..b } == c
        }),
{
}

/// A new duration is the one that was asked for, and cuts only the ends of
/// layers that go beyond it.
pub proof fn new_duration_cuts_the_ends(c: CompositionModel, frames: u32, i: int)
    requires
        frames > 0,
        0 <= i < c.layers.len(),
    ensures
        ({
            let after = comp_after(c, LayerAction::SetCompDurationFrames(frames));
            let (l, m) = (c.layers[i], after.layers[i]);
            &&& after.duration_frames == frames
            &&& m.out_frame == l.out_frame || l.out_frame > m.out_frame == frames
            &&& m.out_frame <= frames
            &&& LayerModel { out_frame: l.out_frame, ..m } == l
            &&& CompositionModel {
                layers: c.layers,
                duration_frames: c.duration_frames,
                ..after
            } == c
        }),
{
}

/// A layer that is added from the panel lasts as long as the composition.
pub proof fn added_layers_span_the_composition(c: CompositionModel)
    ensures
        ({
            let s = comp_after(c, LayerAction::AddSolid).layers;
            let a = comp_after(c, LayerAction::AddAdjustment).layers;
            &&& s.len() == c.layers.len() + 1
            &&& a.len() == c.layers.len() + 1
            &&& s.last().kind is Solid
            &&& a.last().kind is Adjustment
            &&& s.last().in_frame == 0
            &&& a.last().in_frame == 0
            &&& s.last().out_frame == c.duration_frames
            &&& a.last().out_frame == c.duration_frames
        }),
{
}

/// Of the panel's rows, the first shows the last layer. Moving a layer up
/// moves its row up by one, and moving it down moves its row down by one.
pub proof fn rows_move_with_their_layers(
    c: CompositionModel,
    id: LayerId,
    i: int,
    selected: Option<LayerId>,
)
    requires
        layer_index(c.layers, id) == Some(i),
    ensures
        ({
            let rows = |c: CompositionModel|
                c.layers.reverse().map_values(|l: LayerModel| layer_row(l, selected));
            let at = c.layers.len() - 1 - i;
            &&& rows(c)[at].id == id
            &&& at > 0 ==> rows(comp_after(c, LayerAction::MoveUp(id)))[at - 1].id == id
            &&& at + 1 < c.layers.len() ==> rows(comp_after(c, LayerAction::MoveDown(id)))[at
                + 1].id == id
        }),
{
    first_where_is_first(c.layers, is_layer(id), 0);
}

/// A row ends in the name of its layer, and is marked if that layer is the
/// selected one.
pub proof fn row_names_its_layer(l: LayerModel, selected: Option<LayerId>)
    ensures
        layer_row(l, selected).id == l.id,
        l.name.is_suffix_of(layer_row(l, selected).label),
        glyph(l.kind).is_prefix_of(layer_row(l, selected).label),
        layer_row(l, selected).selected <==> selected == Some(l.id),
{
    let row = layer_row(l, selected).label;
    assert(l.name =~= row.skip(row.len() - l.name.len()));
    assert(glyph(l.kind) =~= row.take(glyph(l.kind).len() as int));
}

} // verus!
