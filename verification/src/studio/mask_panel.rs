//! The masks panel: its edits, what they do to a layer's masks, and the pen
//! that draws a mask point by point.

use crate::model::layer::LayerId;
use crate::model::mask::{
    corner, ellipse_path, new_mask, rectangle_path, Mask, MaskMode, MaskModel, MaskPath,
    MaskVertex, Sides,
};
use crate::model::curve::CurveModel;
use crate::scalar::{one, zero, Point, Scalar};
use crate::seqs::{group_views, views};
use crate::text::{cat, decimal, decimal_text};
use vstd::prelude::*;

verus! {

/// Edits of the masks panel.
#[derive(Clone, Copy, Debug, PartialEq, Eq, Structural)]
#[allow(inconsistent_fields)]
pub enum MaskAction {
    AddRectangle(LayerId),
    AddEllipse(LayerId),
    StartPen(LayerId),
    Delete { layer: LayerId, index: usize },
    SetMode { layer: LayerId, index: usize, mode: MaskMode },
    SetOpacity { layer: LayerId, index: usize, value: Scalar },
    SetFeather { layer: LayerId, index: usize, value: Scalar },
    SetExpansion { layer: LayerId, index: usize, value: Scalar },
}

/// The shapes that new masks get: both fill the middle half of the canvas.
#[derive(Clone, Copy, Debug, PartialEq, Eq, Structural)]
pub struct MaskShapes {
    pub rectangle: Sides,
    pub centre: Point,
    pub oval: Sides,
    pub handles: Point,
}

/// The layer that an edit is for.
pub open spec fn mask_layer(action: MaskAction) -> LayerId {
    match action {
        MaskAction::AddRectangle(layer) => layer,
        MaskAction::AddEllipse(layer) => layer,
        MaskAction::StartPen(layer) => layer,
        MaskAction::Delete { layer, .. } => layer,
        MaskAction::SetMode { layer, .. } => layer,
        MaskAction::SetOpacity { layer, .. } => layer,
        MaskAction::SetFeather { layer, .. } => layer,
        MaskAction::SetExpansion { layer, .. } => layer,
    }
}

impl MaskAction {
    /// The layer that the edit is for.
    pub fn layer(self) -> (r: LayerId)
        ensures
            r == mask_layer(self),
    {
        match self {
            MaskAction::AddRectangle(layer) => layer,
            MaskAction::AddEllipse(layer) => layer,
            MaskAction::StartPen(layer) => layer,
            MaskAction::Delete { layer, .. } => layer,
            MaskAction::SetMode { layer, .. } => layer,
            MaskAction::SetOpacity { layer, .. } => layer,
            MaskAction::SetFeather { layer, .. } => layer,
            MaskAction::SetExpansion { layer, .. } => layer,
        }
    }
}

/// `masks` with a new mask, called by its number after `stem`.
pub open spec fn with_mask(
    masks: Seq<MaskModel>,
    stem: Seq<char>,
    path: Seq<MaskVertex>,
) -> Seq<MaskModel> {
    masks.push(new_mask(stem + decimal((masks.len() + 1) as nat), path))
}

/// Whether the edit finds something to change.
pub open spec fn changes_masks(masks: Seq<MaskModel>, action: MaskAction) -> bool {
    match action {
        MaskAction::AddRectangle(_) => true,
        MaskAction::AddEllipse(_) => true,
        MaskAction::StartPen(_) => false,
        MaskAction::Delete { index, .. } => index < masks.len(),
        MaskAction::SetMode { index, .. } => index < masks.len(),
        MaskAction::SetOpacity { index, .. } => index < masks.len(),
        MaskAction::SetFeather { index, .. } => index < masks.len(),
        MaskAction::SetExpansion { index, .. } => index < masks.len(),
    }
}

/// The masks of a layer after an edit.
pub open spec fn masks_after(
    masks: Seq<MaskModel>,
    action: MaskAction,
    shapes: MaskShapes,
) -> Seq<MaskModel> {
    if !changes_masks(masks, action) {
        masks
    } else {
        match action {
            MaskAction::AddRectangle(_) => with_mask(
                masks,
                "Mask "@,
                rectangle_path(shapes.rectangle),
            ),
            MaskAction::AddEllipse(_) => with_mask(
                masks,
                "Mask "@,
                ellipse_path(shapes.centre, shapes.oval, shapes.handles),
            ),
            MaskAction::StartPen(_) => masks,
            MaskAction::Delete { index, .. } => masks.remove(index as int),
            MaskAction::SetMode { index, mode, .. } => masks.update(
                index as int,
                MaskModel { mode, ..masks[index as int] },
            ),
            MaskAction::SetOpacity { index, value, .. } => masks.update(
                index as int,
                MaskModel { opacity: value, ..masks[index as int] },
            ),
            MaskAction::SetFeather { index, value, .. } => masks.update(
                index as int,
                MaskModel { feather: value, ..masks[index as int] },
            ),
            MaskAction::SetExpansion { index, value, .. } => masks.update(
                index as int,
                MaskModel { expansion: value, ..masks[index as int] },
            ),
        }
    }
}

/// Adds a mask, called by its number after `stem`.
pub fn add_mask(masks: &mut Vec<Mask>, stem: &str, path: MaskPath)
    ensures
        views(final(masks)@) == with_mask(views(old(masks)@), stem@, path@),
{
    broadcast use group_views;

    let ghost start = masks@;
    masks.push(Mask::along(stem.to_owned(), path));
    let n: usize = masks.len();
    let number = decimal_text(n as u64);
    let name = cat(stem, &number);
    masks[n - 1].name = name;
    assert(views(masks@) =~= with_mask(views(start), stem@, path@));
}

/// Applies an edit to the masks of a layer. Returns whether it changed
/// anything.
pub fn edit_masks(masks: &mut Vec<Mask>, action: MaskAction, shapes: MaskShapes) -> (r: bool)
    ensures
        views(final(masks)@) == masks_after(views(old(masks)@), action, shapes),
        r == changes_masks(views(old(masks)@), action),
{
    broadcast use group_views;

    let ghost start = masks@;
    match action {
        MaskAction::AddRectangle(_) => {
            add_mask(masks, "Mask ", MaskPath::rectangle(shapes.rectangle));
            true
        },
        MaskAction::AddEllipse(_) => {
            add_mask(
                masks,
                "Mask ",
                MaskPath::ellipse(shapes.centre, shapes.oval, shapes.handles),
            );
            true
        },
        MaskAction::StartPen(_) => false,
        MaskAction::Delete { index, .. } => {
            if index < masks.len() {
                masks.remove(index);
                true
            } else {
                false
            }
        },
        MaskAction::SetMode { index, mode, .. } => {
            if index < masks.len() {
                masks[index].mode = mode;
                assert(masks@ =~= start.update(index as int, masks@[index as int]));
                true
            } else {
                false
            }
        },
        MaskAction::SetOpacity { index, value, .. } => {
            if index < masks.len() {
                masks[index].opacity = value;
                assert(masks@ =~= start.update(index as int, masks@[index as int]));
                true
            } else {
                false
            }
        },
        MaskAction::SetFeather { index, value, .. } => {
            if index < masks.len() {
                masks[index].feather = value;
                assert(masks@ =~= start.update(index as int, masks@[index as int]));
                true
            } else {
                false
            }
        },
        MaskAction::SetExpansion { index, value, .. } => {
            if index < masks.len() {
                masks[index].expansion = value;
                assert(masks@ =~= start.update(index as int, masks@[index as int]));
                true
            } else {
                false
            }
        },
    }
}

/// The pen while it draws: the layer that it draws on and the points so far.
#[derive(Clone, Debug, PartialEq)]
pub struct PenState {
    pub layer: Option<LayerId>,
    pub anchors: Vec<MaskVertex>,
}

/// What the pen holds.
#[verifier::ext_equal]
pub struct PenModel {
    pub layer: Option<LayerId>,
    pub anchors: Seq<MaskVertex>,
}

impl View for PenState {
    type V = PenModel;

    open spec fn view(&self) -> PenModel {
        PenModel { layer: self.layer, anchors: self.anchors@ }
    }
}

/// A pen that draws on nothing.
pub open spec fn idle_pen() -> PenModel {
    PenModel { layer: None, anchors: Seq::empty() }
}

impl Default for PenState {
    fn default() -> (r: Self)
        ensures
            r@ == idle_pen(),
    {
        PenState { layer: None, anchors: Vec::new() }
    }
}

impl PenState {
    /// Begins a path on a layer.
    pub fn start(&mut self, layer: LayerId)
        ensures
            final(self)@ == (PenModel { layer: Some(layer), anchors: Seq::empty() }),
    {
        self.layer = Some(layer);
        self.anchors = Vec::new();
    }

    /// Gives the path up.
    pub fn cancel(&mut self)
        ensures
            final(self)@ == idle_pen(),
    {
        self.layer = None;
        self.anchors = Vec::new();
    }

    /// Adds a corner.
    pub fn add_anchor(&mut self, x: Scalar, y: Scalar)
        ensures
            final(self)@ == (PenModel {
                anchors: old(self)@.anchors.push(corner(x, y)),
                ..old(self)@
            }),
    {
        self.anchors.push(MaskVertex::corner(x, y));
    }

    /// Closes the path, which takes three corners. The pen is idle then.
    pub fn close_into_path(&mut self) -> (r: Option<MaskPath>)
        ensures
            if old(self)@.anchors.len() < 3 {
                r is None && final(self)@ == old(self)@
            } else {
                r is Some && r->0@ == old(self)@.anchors && final(self)@ == idle_pen()
            },
    {
        if self.anchors.len() < 3 {
            return None;
        }
        let mut vertices: Vec<MaskVertex> = Vec::new();
        std::mem::swap(&mut vertices, &mut self.anchors);
        self.layer = None;
        Some(MaskPath { vertices })
    }
}

/// A mask that is added comes last, along the shape that was chosen, and the
/// other masks stay as they were. It adds to the layer in full.
pub proof fn added_mask_comes_last(masks: Seq<MaskModel>, layer: LayerId, shapes: MaskShapes)
    ensures
        ({
            let r = masks_after(masks, MaskAction::AddRectangle(layer), shapes);
            let e = masks_after(masks, MaskAction::AddEllipse(layer), shapes);
            &&& r.drop_last() == masks
            &&& e.drop_last() == masks
            &&& r.last().path == CurveModel::Static(rectangle_path(shapes.rectangle))
            &&& e.last().path == CurveModel::Static(
                ellipse_path(shapes.centre, shapes.oval, shapes.handles),
            )
            &&& r.last().name == e.last().name
            &&& r.last().name == "Mask "@ + decimal((masks.len() + 1) as nat)
            &&& r.last().mode == MaskMode::Add
            &&& r.last().opacity == one()
            &&& r.last().feather == zero()
            &&& r.last().expansion == zero()
        }),
{
    assert(masks_after(masks, MaskAction::AddRectangle(layer), shapes).drop_last() =~= masks);
    assert(masks_after(masks, MaskAction::AddEllipse(layer), shapes).drop_last() =~= masks);
}

/// An edit of a mask sets the one thing that it names, on that mask only.
pub proof fn mask_edits_set_one_thing(
    masks: Seq<MaskModel>,
    layer: LayerId,
    index: usize,
    mode: MaskMode,
    value: Scalar,
    shapes: MaskShapes,
    j: int,
)
    requires
        index < masks.len(),
        0 <= j < masks.len(),
        j != index,
    ensures
        ({
            let m = masks_after(masks, MaskAction::SetMode { layer, index, mode }, shapes);
            let o = masks_after(masks, MaskAction::SetOpacity { layer, index, value }, shapes);
            let f = masks_after(masks, MaskAction::SetFeather { layer, index, value }, shapes);
            let x = masks_after(masks, MaskAction::SetExpansion { layer, index, value }, shapes);
            let i = index as int;
            let was = masks[i];
            &&& m[i].mode == mode && MaskModel { mode: was.mode, ..m[i] } == was
            &&& o[i].opacity == value && MaskModel { opacity: was.opacity, ..o[i] } == was
            &&& f[i].feather == value && MaskModel { feather: was.feather, ..f[i] } == was
            &&& x[i].expansion == value && MaskModel { expansion: was.expansion, ..x[i] } == was
            &&& m[j] == masks[j] && o[j] == masks[j] && f[j] == masks[j] && x[j] == masks[j]
            &&& m.len() == masks.len() && o.len() == masks.len() && f.len() == masks.len()
                && x.len() == masks.len()
        }),
{
}

/// Deleting takes that mask out and keeps the others in order.
pub proof fn deleted_mask_is_taken_out(
    masks: Seq<MaskModel>,
    layer: LayerId,
    index: usize,
    shapes: MaskShapes,
)
    requires
        index < masks.len(),
    ensures
        masks_after(masks, MaskAction::Delete { layer, index }, shapes) == masks.take(index as int)
            + masks.skip(index + 1),
{
    assert(masks.remove(index as int) =~= masks.take(index as int) + masks.skip(index + 1));
}

/// Starting the pen, and an edit of a mask that is not there, change no mask;
/// every other edit does.
pub proof fn masks_stay_without_a_change(
    masks: Seq<MaskModel>,
    layer: LayerId,
    index: usize,
    mode: MaskMode,
    value: Scalar,
    shapes: MaskShapes,
)
    ensures
        !changes_masks(masks, MaskAction::StartPen(layer)),
        masks_after(masks, MaskAction::StartPen(layer), shapes) == masks,
        changes_masks(masks, MaskAction::AddRectangle(layer)),
        changes_masks(masks, MaskAction::AddEllipse(layer)),
        changes_masks(masks, MaskAction::Delete { layer, index }) <==> index < masks.len(),
        changes_masks(masks, MaskAction::SetMode { layer, index, mode }) <==> index < masks.len(),
        changes_masks(masks, MaskAction::SetOpacity { layer, index, value }) <==> index
            < masks.len(),
        changes_masks(masks, MaskAction::SetFeather { layer, index, value }) <==> index
            < masks.len(),
        changes_masks(masks, MaskAction::SetExpansion { layer, index, value }) <==> index
            < masks.len(),
        index >= masks.len() ==> {
            &&& masks_after(masks, MaskAction::Delete { layer, index }, shapes) == masks
            &&& masks_after(masks, MaskAction::SetMode { layer, index, mode }, shapes) == masks
            &&& masks_after(masks, MaskAction::SetOpacity { layer, index, value }, shapes) == masks
            &&& masks_after(masks, MaskAction::SetFeather { layer, index, value }, shapes) == masks
            &&& masks_after(masks, MaskAction::SetExpansion { layer, index, value }, shapes)
                == masks
        },
{
}

} // verus!
