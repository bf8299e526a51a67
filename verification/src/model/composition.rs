//! Compositions hold an ordered list of layers and define the output canvas
//! dimensions, framerate, duration, and background colour.

use crate::model::asset::AssetId;
use crate::model::effect::{Effect, EffectModel};
use crate::model::layer::{
    blend_shader_index, source_frame, BlendMode, Layer, LayerId, LayerKind, LayerModel,
};
use crate::model::time::{default_framerate, Framerate};
use crate::model::transform::{identity_transform, Transform};
use crate::scalar::{one, zero, Rgba, Scalar};
use crate::seqs::{first_where, first_where_is_first, group_views, views};
use vstd::prelude::*;

verus! {

#[derive(Clone, Copy, Debug, PartialEq, Eq, Structural, Hash)]
pub struct CompId(pub u32);

#[derive(Debug, PartialEq)]
pub struct Composition {
    pub id: CompId,
    pub name: String,
    pub width: u32,
    pub height: u32,
    pub framerate: Framerate,
    /// Duration in frames at the composition's framerate.
    pub duration_frames: u32,
    /// Background colour shown where no layer is opaque.
    pub background: Rgba,
    pub layers: Vec<Layer>,
    /// The id that the next layer gets; 0 if it is not known yet.
    pub next_layer_id: u32,
}

/// What a composition holds.
#[verifier::ext_equal]
pub struct CompositionModel {
    pub id: CompId,
    pub name: Seq<char>,
    pub width: u32,
    pub height: u32,
    pub framerate: Framerate,
    pub duration_frames: u32,
    pub background: Rgba,
    pub layers: Seq<LayerModel>,
    pub next_layer_id: u32,
}

impl View for Composition {
    type V = CompositionModel;

    open spec fn view(&self) -> CompositionModel {
        CompositionModel {
            id: self.id,
            name: self.name@,
            width: self.width,
            height: self.height,
            framerate: self.framerate,
            duration_frames: self.duration_frames,
            background: self.background,
            layers: views(self.layers@),
            next_layer_id: self.next_layer_id,
        }
    }
}

/// Opaque black.
pub open spec fn black() -> Rgba {
    Rgba { r: zero(), g: zero(), b: zero(), a: one() }
}

/// An empty composition: no frames, no layers, black background.
pub open spec fn new_composition(
    id: CompId,
    name: Seq<char>,
    width: u32,
    height: u32,
) -> CompositionModel {
    CompositionModel {
        id,
        name,
        width,
        height,
        framerate: default_framerate(),
        duration_frames: 0,
        background: black(),
        layers: Seq::empty(),
        next_layer_id: 1,
    }
}

/// A layer with nothing changed from its defaults.
pub open spec fn new_layer(
    id: LayerId,
    name: Seq<char>,
    kind: LayerKind,
    in_frame: u32,
    out_frame: u32,
) -> LayerModel {
    LayerModel {
        id,
        name,
        kind,
        in_frame,
        out_frame,
        transform: identity_transform(),
        effects: Seq::empty(),
        parent: None,
        blend_mode: BlendMode::Normal,
        track_matte: None,
        time_offset_frames: 0,
        time_scale: one(),
        masks: Seq::empty(),
    }
}

/// `c` with a new layer on top.
pub open spec fn with_layer(
    c: CompositionModel,
    name: Seq<char>,
    kind: LayerKind,
    in_frame: u32,
    out_frame: u32,
) -> CompositionModel {
    CompositionModel {
        layers: c.layers.push(
            new_layer(LayerId(c.next_layer_id), name, kind, in_frame, out_frame),
        ),
        next_layer_id: (c.next_layer_id + 1) as u32,
        ..c
    }
}

/// The test for a layer's id.
pub open spec fn is_layer(id: LayerId) -> spec_fn(LayerModel) -> bool {
    |l: LayerModel| l.id == id
}

/// The position of the first layer with `id`.
pub open spec fn layer_index(layers: Seq<LayerModel>, id: LayerId) -> Option<int> {
    first_where(layers, is_layer(id), 0)
}

/// `c` with `effect` added to the layer with `id`, if there is one.
pub open spec fn with_effect(
    c: CompositionModel,
    id: LayerId,
    effect: EffectModel,
) -> CompositionModel {
    match layer_index(c.layers, id) {
        Some(i) => CompositionModel {
            layers: c.layers.update(
                i,
                LayerModel { effects: c.layers[i].effects.push(effect), ..c.layers[i] },
            ),
            ..c
        },
        None => c,
    }
}

/// `s` with the elements at `i` and `j` exchanged.
pub open spec fn swapped<T>(s: Seq<T>, i: int, j: int) -> Seq<T> {
    s.update(i, s[j]).update(j, s[i])
}

/// `c` without the first layer that has `id`.
pub open spec fn without_layer(c: CompositionModel, id: LayerId) -> CompositionModel {
    match layer_index(c.layers, id) {
        Some(i) => CompositionModel { layers: c.layers.remove(i), ..c },
        None => c,
    }
}

/// `c` with the layer exchanged with the one before it, if there is one.
pub open spec fn layer_moved_up(c: CompositionModel, id: LayerId) -> CompositionModel {
    match layer_index(c.layers, id) {
        Some(i) => if i > 0 {
            CompositionModel { layers: swapped(c.layers, i - 1, i), ..c }
        } else {
            c
        },
        None => c,
    }
}

/// `c` with the layer exchanged with the one after it, if there is one.
pub open spec fn layer_moved_down(c: CompositionModel, id: LayerId) -> CompositionModel {
    match layer_index(c.layers, id) {
        Some(i) => if i + 1 < c.layers.len() {
            CompositionModel { layers: swapped(c.layers, i, i + 1), ..c }
        } else {
            c
        },
        None => c,
    }
}

/// A layer moved up and then down again is back where it was, where layer ids
/// are unique and the layer is not the first.
pub proof fn up_then_down(c: CompositionModel, id: LayerId)
    requires
        layer_ids_unique(c),
        layer_index(c.layers, id) is Some,
        layer_index(c.layers, id)->0 > 0,
    ensures
        layer_moved_down(layer_moved_up(c, id), id) == c,
{
    let i = layer_index(c.layers, id)->0;
    let d = layer_moved_up(c, id);
    first_where_is_first(c.layers, is_layer(id), 0);
    first_where_is_first(d.layers, is_layer(id), 0);
    assert(is_layer(id)(d.layers[i - 1]));
    assert forall|j: int| 0 <= j < i - 1 implies !is_layer(id)(#[trigger] d.layers[j]) by {
        assert(d.layers[j] == c.layers[j]);
    }
    assert(layer_index(d.layers, id) == Some(i - 1));
    assert(layer_moved_down(d, id).layers =~= c.layers);
}

/// Moving layers keeps every layer and only changes their order.
pub proof fn moving_keeps_layers(c: CompositionModel, id: LayerId)
    ensures
        layer_moved_up(c, id).layers.to_multiset() == c.layers.to_multiset(),
        layer_moved_down(c, id).layers.to_multiset() == c.layers.to_multiset(),
{
    first_where_is_first(c.layers, is_layer(id), 0);
    if let Some(i) = layer_index(c.layers, id) {
        if i > 0 {
            swapped_multiset(c.layers, i - 1, i);
        }
        if i + 1 < c.layers.len() {
            swapped_multiset(c.layers, i, i + 1);
        }
    }
}

/// Exchanging two elements keeps all elements.
pub proof fn swapped_multiset<T>(s: Seq<T>, i: int, j: int)
    requires
        0 <= i < s.len(),
        0 <= j < s.len(),
    ensures
        swapped(s, i, j).to_multiset() == s.to_multiset(),
{
    broadcast use vstd::seq_lib::group_to_multiset_ensures;

    assert(swapped(s, i, j).to_multiset() =~= s.to_multiset());
}

/// The largest layer id, 0 if there are no layers.
pub open spec fn largest_layer_id(layers: Seq<LayerModel>) -> u32
    decreases layers.len(),
{
    if layers.len() == 0 {
        0
    } else {
        let rest = largest_layer_id(layers.drop_last());
        if layers.last().id.0 > rest {
            layers.last().id.0
        } else {
            rest
        }
    }
}

/// `c` with the next layer id worked out where it was not known.
pub open spec fn fixed_up(c: CompositionModel) -> CompositionModel {
    if c.next_layer_id == 0 {
        CompositionModel { next_layer_id: (largest_layer_id(c.layers) + 1) as u32, ..c }
    } else {
        c
    }
}

/// Whether fixing up `c` finds an id that is still free.
pub open spec fn can_fix_up(c: CompositionModel) -> bool {
    c.next_layer_id == 0 ==> largest_layer_id(c.layers) < u32::MAX
}

/// Whether every layer id is below the next one to be given out, and no two
/// layers share an id.
pub open spec fn layer_ids_unique(c: CompositionModel) -> bool {
    &&& forall|i: int| 0 <= i < c.layers.len() ==> (#[trigger] c.layers[i]).id.0 < c.next_layer_id
    &&& forall|i: int, j: int|
        0 <= i < j < c.layers.len() ==> (#[trigger] c.layers[i]).id != (#[trigger] c.layers[j]).id
}

/// A new composition has unique layer ids, and adding a layer keeps them so
/// with an id that no layer had.
pub proof fn added_layers_have_unique_ids(
    c: CompositionModel,
    name: Seq<char>,
    kind: LayerKind,
    in_frame: u32,
    out_frame: u32,
)
    requires
        layer_ids_unique(c),
        c.next_layer_id < u32::MAX,
    ensures
        layer_ids_unique(with_layer(c, name, kind, in_frame, out_frame)),
        layer_index(c.layers, LayerId(c.next_layer_id)) is None,
        layer_index(
            with_layer(c, name, kind, in_frame, out_frame).layers,
            LayerId(c.next_layer_id),
        ) == Some(c.layers.len() as int),
{
    let id = LayerId(c.next_layer_id);
    let d = with_layer(c, name, kind, in_frame, out_frame);
    first_where_is_first(c.layers, is_layer(id), 0);
    first_where_is_first(d.layers, is_layer(id), 0);
    assert(is_layer(id)(d.layers[c.layers.len() as int]));
    assert forall|i: int| 0 <= i < d.layers.len() implies (#[trigger] d.layers[i]).id.0
        < d.next_layer_id by {
        if i < c.layers.len() {
            assert(d.layers[i] == c.layers[i]);
        }
    }
    assert forall|i: int, j: int| 0 <= i < j < d.layers.len() implies (#[trigger] d.layers[i]).id
        != (#[trigger] d.layers[j]).id by {
        assert(d.layers[i] == c.layers[i]);
        if j < c.layers.len() {
            assert(d.layers[j] == c.layers[j]);
        }
    }
}

proof fn largest_layer_id_bounds(layers: Seq<LayerModel>)
    ensures
        forall|i: int|
            0 <= i < layers.len() ==> (#[trigger] layers[i]).id.0 <= largest_layer_id(layers),
    decreases layers.len(),
{
    if layers.len() > 0 {
        largest_layer_id_bounds(layers.drop_last());
        assert forall|i: int| 0 <= i < layers.len() implies (#[trigger] layers[i]).id.0
            <= largest_layer_id(layers) by {
            if i < layers.len() - 1 {
                assert(layers.drop_last()[i] == layers[i]);
            }
        }
    }
}

/// After fixing up a composition whose next layer id was unknown, that id is
/// above every layer's.
pub proof fn fixed_up_id_is_fresh(c: CompositionModel)
    requires
        c.next_layer_id == 0,
        can_fix_up(c),
    ensures
        forall|i: int|
            0 <= i < c.layers.len() ==> (#[trigger] c.layers[i]).id.0 < fixed_up(c).next_layer_id,
{
    largest_layer_id_bounds(c.layers);
}

/// Exchanges the items at `i` and `j`, `i` being the earlier one.
pub fn swap_items<T>(v: &mut Vec<T>, i: usize, j: usize)
    requires
        i < j < old(v).len(),
    ensures
        final(v)@ == swapped(old(v)@, i as int, j as int),
{
    let later = v.remove(j);
    let earlier = v.remove(i);
    v.insert(i, later);
    v.insert(j, earlier);
    assert(v@ =~= swapped(old(v)@, i as int, j as int));
}

impl Composition {
    pub fn new(id: CompId, name: String, width: u32, height: u32) -> (r: Self)
        ensures
            r@ == new_composition(id, name@, width, height),
    {
        broadcast use group_views;

        let z = Scalar::zero();
        let r = Composition {
            id,
            name,
            width,
            height,
            framerate: Framerate::default(),
            duration_frames: 0,
            background: Rgba { r: z, g: z, b: z, a: Scalar::one() },
            layers: Vec::new(),
            next_layer_id: 1,
        };
        assert(r@.layers =~= Seq::<LayerModel>::empty());
        r
    }

    /// Adds a layer and returns its id.
    pub fn add_layer(
        &mut self,
        name: String,
        kind: LayerKind,
        in_frame: u32,
        out_frame: u32,
    ) -> (r: LayerId)
        requires
            old(self)@.next_layer_id < u32::MAX,
        ensures
            r == LayerId(old(self)@.next_layer_id),
            final(self)@ == with_layer(old(self)@, name@, kind, in_frame, out_frame),
    {
        broadcast use group_views;

        let id = LayerId(self.next_layer_id);
        self.next_layer_id = self.next_layer_id + 1;
        let layer = Layer {
            id,
            name,
            kind,
            in_frame,
            out_frame,
            transform: Transform::default(),
            effects: Vec::new(),
            parent: None,
            blend_mode: BlendMode::Normal,
            track_matte: None,
            time_offset_frames: 0,
            time_scale: Scalar::one(),
            masks: Vec::new(),
        };
        assert(layer@.effects =~= Seq::<EffectModel>::empty());
        assert(layer@.masks =~= Seq::empty());
        self.layers.push(layer);
        id
    }

    /// The position of the first layer with `id`.
    pub fn layer_position(&self, id: LayerId) -> (r: Option<usize>)
        ensures
            match layer_index(self@.layers, id) {
                Some(i) => r == Some(i as usize) && 0 <= i < self.layers.len(),
                None => r is None,
            },
    {
        let mut i: usize = 0;
        while i < self.layers.len()
            invariant
                i <= self.layers.len(),
                layer_index(self@.layers, id) == first_where(
                    self@.layers,
                    is_layer(id),
                    i as int,
                ),
            decreases self.layers.len() - i,
        {
            assert(self@.layers[i as int] == self.layers@[i as int]@);
            if self.layers[i].id == id {
                return Some(i);
            }
            i = i + 1;
        }
        None
    }

    pub fn layer(&self, id: LayerId) -> (r: Option<&Layer>)
        ensures
            match layer_index(self@.layers, id) {
                Some(i) => r is Some && r->0@ == self@.layers[i],
                None => r is None,
            },
    {
        match self.layer_position(id) {
            Some(i) => Some(&self.layers[i]),
            None => None,
        }
    }

    pub fn layer_mut(&mut self, id: LayerId) -> (r: Option<&mut Layer>)
        ensures
            match layer_index(old(self)@.layers, id) {
                Some(i) => match r {
                    Some(l) => {
                        &&& l@ == old(self)@.layers[i]
                        &&& final(self)@ == (CompositionModel {
                            layers: old(self)@.layers.update(i, final(l)@),
                            ..old(self)@
                        })
                    },
                    None => false,
                },
                None => r is None && final(self)@ == old(self)@,
            },
    {
        broadcast use group_views;

        match self.layer_position(id) {
            Some(i) => Some(&mut self.layers[i]),
            None => None,
        }
    }

    /// Adds a solid-colour layer that spans the whole composition.
    pub fn add_solid(&mut self, name: String, color: Rgba) -> (r: LayerId)
        requires
            old(self)@.next_layer_id < u32::MAX,
        ensures
            r == LayerId(old(self)@.next_layer_id),
            final(self)@ == with_layer(
                old(self)@,
                name@,
                LayerKind::Solid { color },
                0,
                old(self)@.duration_frames,
            ),
    {
        let dur: u32 = self.duration_frames;
        self.add_layer(name, LayerKind::Solid { color }, 0, dur)
    }

    /// Adds a video layer for `asset` that spans the whole composition.
    pub fn add_video(&mut self, name: String, asset: AssetId) -> (r: LayerId)
        requires
            old(self)@.next_layer_id < u32::MAX,
        ensures
            r == LayerId(old(self)@.next_layer_id),
            final(self)@ == with_layer(
                old(self)@,
                name@,
                LayerKind::Video { asset },
                0,
                old(self)@.duration_frames,
            ),
    {
        let dur: u32 = self.duration_frames;
        self.add_layer(name, LayerKind::Video { asset }, 0, dur)
    }

    /// Adds an effect to a layer. Nothing happens if there is no such layer.
    pub fn push_effect(&mut self, layer: LayerId, effect: Effect)
        ensures
            final(self)@ == with_effect(old(self)@, layer, effect@),
    {
        broadcast use group_views;

        if let Some(l) = self.layer_mut(layer) {
            l.effects.push(effect);
        }
    }

    /// Removes the layer with `id`. Nothing happens if there is none.
    pub fn remove_layer(&mut self, id: LayerId)
        ensures
            final(self)@ == without_layer(old(self)@, id),
    {
        broadcast use group_views;

        if let Some(i) = self.layer_position(id) {
            self.layers.remove(i);
        }
    }

    /// Moves a layer one place toward the start of the list.
    pub fn move_layer_up(&mut self, id: LayerId)
        ensures
            final(self)@ == layer_moved_up(old(self)@, id),
    {
        if let Some(i) = self.layer_position(id) {
            if i > 0 {
                swap_items(&mut self.layers, i - 1, i);
                assert(self@.layers =~= swapped(old(self)@.layers, i - 1, i as int));
            }
        }
    }

    /// Moves a layer one place toward the end of the list.
    pub fn move_layer_down(&mut self, id: LayerId)
        ensures
            final(self)@ == layer_moved_down(old(self)@, id),
    {
        if let Some(i) = self.layer_position(id) {
            if i + 1 < self.layers.len() {
                swap_items(&mut self.layers, i, i + 1);
                assert(self@.layers =~= swapped(old(self)@.layers, i as int, i + 1));
            }
        }
    }

    /// Works out the next layer id from the layers where it is not known.
    pub fn fixup_after_load(&mut self)
        requires
            can_fix_up(old(self)@),
        ensures
            final(self)@ == fixed_up(old(self)@),
    {
        if self.next_layer_id == 0 {
            let mut largest: u32 = 0;
            let mut i: usize = 0;
            while i < self.layers.len()
                invariant
                    i <= self.layers.len(),
                    largest == largest_layer_id(self@.layers.take(i as int)),
                decreases self.layers.len() - i,
            {
                let ghost head = self@.layers.take(i + 1);
                assert(head.drop_last() =~= self@.layers.take(i as int));
                assert(head.last() == self.layers@[i as int]@);
                if self.layers[i].id.0 > largest {
                    largest = self.layers[i].id.0;
                }
                i = i + 1;
            }
            assert(self@.layers.take(i as int) =~= self@.layers);
            self.next_layer_id = largest + 1;
        }
    }
}

/// A new layer comes last, with what was asked for, and nothing else of the
/// composition changes.
pub proof fn added_layer_is_as_asked(
    c: CompositionModel,
    name: Seq<char>,
    kind: LayerKind,
    in_frame: u32,
    out_frame: u32,
)
    requires
        c.next_layer_id < u32::MAX,
    ensures
        ({
            let after = with_layer(c, name, kind, in_frame, out_frame);
            let l = after.layers.last();
            &&& after.layers.drop_last() == c.layers
            &&& after.next_layer_id == c.next_layer_id + 1
            &&& CompositionModel { layers: c.layers, next_layer_id: c.next_layer_id, ..after } == c
            &&& l.id.0 == c.next_layer_id
            &&& l.name == name
            &&& l.kind == kind
            &&& l.in_frame == in_frame
            &&& l.out_frame == out_frame
        }),
{
    assert(with_layer(c, name, kind, in_frame, out_frame).layers.drop_last() =~= c.layers);
}

/// A new layer shows its source as it is: it plays straight, stands on its
/// own, and is drawn without effects, masks or a matte.
pub proof fn new_layer_is_plain(
    id: LayerId,
    name: Seq<char>,
    kind: LayerKind,
    in_frame: u32,
    out_frame: u32,
    frame: u32,
    scaled: int,
)
    requires
        in_frame <= frame,
    ensures
        ({
            let l = new_layer(id, name, kind, in_frame, out_frame);
            &&& source_frame(l, frame, scaled) == frame - in_frame
            &&& l.parent is None
            &&& l.track_matte is None
            &&& l.effects.len() == 0
            &&& l.masks.len() == 0
            &&& blend_shader_index(l.blend_mode) == 0
            &&& l.transform == identity_transform()
        }),
{
}

/// An effect goes behind the effects that its layer has. The rest of the layer
/// and the other layers stay as they were.
pub proof fn effect_goes_to_its_layer(
    c: CompositionModel,
    id: LayerId,
    effect: EffectModel,
    i: int,
    j: int,
)
    requires
        layer_index(c.layers, id) == Some(i),
        0 <= j < c.layers.len(),
    ensures
        ({
            let after = with_effect(c, id, effect);
            &&& after.layers.len() == c.layers.len()
            &&& after.layers[i].effects.last() == effect
            &&& after.layers[i].effects.drop_last() == c.layers[i].effects
            &&& LayerModel { effects: c.layers[i].effects, ..after.layers[i] } == c.layers[i]
            &&& j != i ==> after.layers[j] == c.layers[j]
            &&& CompositionModel { layers: c.layers, ..after } == c
        }),
{
    first_where_is_first(c.layers, is_layer(id), 0);
    assert(with_effect(c, id, effect).layers[i].effects.drop_last() =~= c.layers[i].effects);
}

/// Removing a layer takes that one out: the layers before it keep their
/// places, and those behind it move up by one.
pub proof fn removed_layer_leaves_the_rest(c: CompositionModel, id: LayerId, i: int, j: int)
    requires
        layer_index(c.layers, id) == Some(i),
        0 <= j < c.layers.len(),
    ensures
        ({
            let after = without_layer(c, id);
            &&& c.layers[i].id == id
            &&& after.layers.len() == c.layers.len() - 1
            &&& j < i ==> after.layers[j] == c.layers[j]
            &&& j > i ==> after.layers[j - 1] == c.layers[j]
            &&& CompositionModel { layers: c.layers, ..after } == c
        }),
{
    first_where_is_first(c.layers, is_layer(id), 0);
}

/// A removed layer is no longer found.
pub proof fn removed_layer_is_gone(c: CompositionModel, id: LayerId)
    requires
        layer_ids_unique(c),
    ensures
        layer_index(without_layer(c, id).layers, id) is None,
{
    first_where_is_first(c.layers, is_layer(id), 0);
    let after = without_layer(c, id);
    if layer_index(c.layers, id) is Some {
        let i = layer_index(c.layers, id).unwrap();
        assert forall|k: int| 0 <= k < after.layers.len() implies !is_layer(id)(
            #[trigger] after.layers[k],
        ) by {
            let from = if k < i {
                k
            } else {
                k + 1
            };
            assert(after.layers[k] == c.layers[from]);
            assert(c.layers[from].id != c.layers[i].id);
        }
    }
    first_where_is_first(after.layers, is_layer(id), 0);
}

/// Moving a layer changes places with its neighbour, and with no other: up is
/// toward the start of the list, down toward the end.
pub proof fn moved_layer_changes_places(c: CompositionModel, id: LayerId, i: int, j: int)
    requires
        layer_index(c.layers, id) == Some(i),
        0 <= j < c.layers.len(),
    ensures
        i > 0 ==> {
            let up = layer_moved_up(c, id).layers;
            &&& up[i - 1] == c.layers[i]
            &&& up[i] == c.layers[i - 1]
            &&& j != i && j != i - 1 ==> up[j] == c.layers[j]
        },
        i + 1 < c.layers.len() ==> {
            let down = layer_moved_down(c, id).layers;
            &&& down[i + 1] == c.layers[i]
            &&& down[i] == c.layers[i + 1]
            &&& j != i && j != i + 1 ==> down[j] == c.layers[j]
        },
        i == 0 ==> layer_moved_up(c, id) == c,
        i + 1 == c.layers.len() ==> layer_moved_down(c, id) == c,
{
    first_where_is_first(c.layers, is_layer(id), 0);
}

/// A new composition is empty, black, and of the size that was asked for.
pub proof fn new_composition_is_empty(id: CompId, name: Seq<char>, width: u32, height: u32)
    ensures
        ({
            let c = new_composition(id, name, width, height);
            &&& c.id == id
            &&& c.name == name
            &&& c.width == width
            &&& c.height == height
            &&& c.layers.len() == 0
            &&& c.duration_frames == 0
            &&& c.next_layer_id > 0
            &&& c.background == black()
            &&& fixed_up(c) == c
        }),
{
}

/// The first layer id of a new composition is the one that fixing up would
/// give it, and fixing up skips no id.
pub proof fn fixed_up_layer_id_skips_none(c: CompositionModel)
    requires
        can_fix_up(c),
        c.next_layer_id == 0,
    ensures
        fixed_up(c).next_layer_id == 1 || exists|i: int|
            0 <= i < c.layers.len() && (#[trigger] c.layers[i]).id.0 + 1 == fixed_up(
                c,
            ).next_layer_id,
        c.layers.len() == 0 ==> fixed_up(c).next_layer_id == new_composition(
            c.id,
            c.name,
            c.width,
            c.height,
        ).next_layer_id,
        (CompositionModel { next_layer_id: 0, ..fixed_up(c) }) == c,
{
    largest_layer_is_in_use(c.layers);
}

proof fn largest_layer_is_in_use(layers: Seq<LayerModel>)
    ensures
        largest_layer_id(layers) == 0 || exists|i: int|
            0 <= i < layers.len() && (#[trigger] layers[i]).id.0 == largest_layer_id(layers),
    decreases layers.len(),
{
    if layers.len() > 0 {
        let init = layers.drop_last();
        largest_layer_is_in_use(init);
        if layers.last().id.0 > largest_layer_id(init) {
            assert(layers[layers.len() - 1].id.0 == largest_layer_id(layers));
        } else if largest_layer_id(layers) != 0 {
            let i = choose|i: int|
                0 <= i < init.len() && (#[trigger] init[i]).id.0 == largest_layer_id(init);
            assert(layers[i].id.0 == largest_layer_id(layers));
        }
    }
}

/// An edit of a layer that is not there changes nothing.
pub proof fn missing_layer_changes_nothing(c: CompositionModel, id: LayerId, effect: EffectModel)
    requires
        forall|i: int| 0 <= i < c.layers.len() ==> (#[trigger] c.layers[i]).id != id,
    ensures
        layer_index(c.layers, id) is None,
        with_effect(c, id, effect) == c,
        without_layer(c, id) == c,
        layer_moved_up(c, id) == c,
        layer_moved_down(c, id) == c,
{
    first_where_is_first(c.layers, is_layer(id), 0);
}

} // verus!
