//! Top-level project container.

use crate::model::asset::{Asset, AssetId, AssetKind, AssetModel};
use crate::model::composition::{
    can_fix_up, fixed_up, is_layer, layer_index, new_composition, CompId, Composition,
    CompositionModel,
};
use crate::model::layer::{LayerId, LayerKind, LayerModel};
use crate::seqs::{first_where, first_where_is_first, group_views, views};
use vstd::prelude::*;

verus! {

/// Bumped whenever the on-disk project schema changes incompatibly.
pub const FORMAT_VERSION: u32 = 1;

#[derive(Debug, PartialEq)]
pub struct Project {
    pub format_version: u32,
    pub assets: Vec<Asset>,
    pub compositions: Vec<Composition>,
    /// The id that the next asset gets; 0 if it is not known yet.
    pub next_asset_id: u32,
    /// The id that the next composition gets; 0 if it is not known yet.
    pub next_comp_id: u32,
}

/// What a project holds.
#[verifier::ext_equal]
pub struct ProjectModel {
    pub format_version: u32,
    pub assets: Seq<AssetModel>,
    pub compositions: Seq<CompositionModel>,
    pub next_asset_id: u32,
    pub next_comp_id: u32,
}

impl View for Project {
    type V = ProjectModel;

    open spec fn view(&self) -> ProjectModel {
        ProjectModel {
            format_version: self.format_version,
            assets: views(self.assets@),
            compositions: views(self.compositions@),
            next_asset_id: self.next_asset_id,
            next_comp_id: self.next_comp_id,
        }
    }
}

/// A project without assets and compositions.
pub open spec fn new_project() -> ProjectModel {
    ProjectModel {
        format_version: FORMAT_VERSION,
        assets: Seq::empty(),
        compositions: Seq::empty(),
        next_asset_id: 1,
        next_comp_id: 1,
    }
}

/// `p` with a new asset.
pub open spec fn with_asset(p: ProjectModel, path: Seq<char>, kind: AssetKind) -> ProjectModel {
    ProjectModel {
        assets: p.assets.push(AssetModel { id: AssetId(p.next_asset_id), path, kind }),
        next_asset_id: (p.next_asset_id + 1) as u32,
        ..p
    }
}

/// `p` with a new composition.
pub open spec fn with_composition(
    p: ProjectModel,
    name: Seq<char>,
    width: u32,
    height: u32,
) -> ProjectModel {
    ProjectModel {
        compositions: p.compositions.push(
            new_composition(CompId(p.next_comp_id), name, width, height),
        ),
        next_comp_id: (p.next_comp_id + 1) as u32,
        ..p
    }
}

/// The test for an asset's id.
pub open spec fn is_asset(id: AssetId) -> spec_fn(AssetModel) -> bool {
    |a: AssetModel| a.id == id
}

/// The position of the first asset with `id`.
pub open spec fn asset_index(assets: Seq<AssetModel>, id: AssetId) -> Option<int> {
    first_where(assets, is_asset(id), 0)
}

/// The test for a composition's id.
pub open spec fn is_comp(id: CompId) -> spec_fn(CompositionModel) -> bool {
    |c: CompositionModel| c.id == id
}

/// The position of the first composition with `id`.
pub open spec fn comp_index(comps: Seq<CompositionModel>, id: CompId) -> Option<int> {
    first_where(comps, is_comp(id), 0)
}

/// The largest asset id, 0 if there are none.
pub open spec fn largest_asset_id(assets: Seq<AssetModel>) -> u32
    decreases assets.len(),
{
    if assets.len() == 0 {
        0
    } else {
        let rest = largest_asset_id(assets.drop_last());
        if assets.last().id.0 > rest {
            assets.last().id.0
        } else {
            rest
        }
    }
}

/// The largest composition id, 0 if there are none.
pub open spec fn largest_comp_id(comps: Seq<CompositionModel>) -> u32
    decreases comps.len(),
{
    if comps.len() == 0 {
        0
    } else {
        let rest = largest_comp_id(comps.drop_last());
        if comps.last().id.0 > rest {
            comps.last().id.0
        } else {
            rest
        }
    }
}

/// Whether fixing up `p` finds ids that are still free.
pub open spec fn project_can_fix_up(p: ProjectModel) -> bool {
    &&& p.next_asset_id == 0 ==> largest_asset_id(p.assets) < u32::MAX
    &&& p.next_comp_id == 0 ==> largest_comp_id(p.compositions) < u32::MAX
    &&& forall|i: int| 0 <= i < p.compositions.len() ==> can_fix_up(#[trigger] p.compositions[i])
}

/// `p` with the next ids worked out where they were not known.
pub open spec fn project_fixed_up(p: ProjectModel) -> ProjectModel {
    ProjectModel {
        compositions: p.compositions.map_values(|c: CompositionModel| fixed_up(c)),
        next_asset_id: if p.next_asset_id == 0 {
            (largest_asset_id(p.assets) + 1) as u32
        } else {
            p.next_asset_id
        },
        next_comp_id: if p.next_comp_id == 0 {
            (largest_comp_id(p.compositions) + 1) as u32
        } else {
            p.next_comp_id
        },
        ..p
    }
}

/// Fixing up a project twice is fixing it up once.
pub proof fn fixing_up_is_idempotent(p: ProjectModel)
    requires
        project_can_fix_up(p),
    ensures
        project_can_fix_up(project_fixed_up(p)),
        project_fixed_up(project_fixed_up(p)) == project_fixed_up(p),
{
    let q = project_fixed_up(p);
    assert forall|i: int| 0 <= i < q.compositions.len() implies can_fix_up(
        #[trigger] q.compositions[i],
    ) by {
        assert(can_fix_up(p.compositions[i]));
    }
    assert(project_fixed_up(q).compositions =~= q.compositions) by {
        assert forall|i: int| 0 <= i < q.compositions.len() implies fixed_up(
            #[trigger] q.compositions[i],
        ) == q.compositions[i] by {
            assert(can_fix_up(p.compositions[i]));
        }
    }
}

/// Whether asset ids and composition ids are unique and below the next ones.
pub open spec fn project_ids_unique(p: ProjectModel) -> bool {
    &&& forall|i: int| 0 <= i < p.assets.len() ==> (#[trigger] p.assets[i]).id.0 < p.next_asset_id
    &&& forall|i: int, j: int|
        0 <= i < j < p.assets.len() ==> (#[trigger] p.assets[i]).id != (#[trigger] p.assets[j]).id
    &&& forall|i: int|
        0 <= i < p.compositions.len() ==> (#[trigger] p.compositions[i]).id.0 < p.next_comp_id
    &&& forall|i: int, j: int|
        0 <= i < j < p.compositions.len() ==> (#[trigger] p.compositions[i]).id != (
        #[trigger] p.compositions[j]).id
}

/// Adding an asset or a composition keeps ids unique, and the new item is
/// found under the id that was given out.
pub proof fn added_items_have_unique_ids(
    p: ProjectModel,
    path: Seq<char>,
    kind: AssetKind,
    name: Seq<char>,
    width: u32,
    height: u32,
)
    requires
        project_ids_unique(p),
        p.next_asset_id < u32::MAX,
        p.next_comp_id < u32::MAX,
    ensures
        project_ids_unique(with_asset(p, path, kind)),
        asset_index(with_asset(p, path, kind).assets, AssetId(p.next_asset_id)) == Some(
            p.assets.len() as int,
        ),
        project_ids_unique(with_composition(p, name, width, height)),
        comp_index(
            with_composition(p, name, width, height).compositions,
            CompId(p.next_comp_id),
        ) == Some(p.compositions.len() as int),
{
    let a = with_asset(p, path, kind).assets;
    assert forall|i: int| 0 <= i < p.assets.len() implies a[i] == #[trigger] p.assets[i] by {}
    assert(is_asset(AssetId(p.next_asset_id))(a[p.assets.len() as int]));
    first_where_is_first(a, is_asset(AssetId(p.next_asset_id)), 0);
    let c = with_composition(p, name, width, height).compositions;
    assert forall|i: int| 0 <= i < p.compositions.len() implies c[i]
        == #[trigger] p.compositions[i] by {}
    assert(is_comp(CompId(p.next_comp_id))(c[p.compositions.len() as int]));
    first_where_is_first(c, is_comp(CompId(p.next_comp_id)), 0);
}

#[derive(Clone, Copy, Debug, PartialEq, Eq, Structural)]
pub enum ValidationError {
    LayerInAfterOut { comp: CompId, layer: LayerId },
    LayerOutBeyondCompDuration {
        comp: CompId,
        layer: LayerId,
        out_frame: u32,
        comp_duration: u32,
    },
    UnknownAsset { comp: CompId, layer: LayerId, asset: AssetId },
    UnknownComposition { comp: CompId, layer: LayerId, target: CompId },
    CompositionSelfReference { comp: CompId, layer: LayerId },
    /// The layer is its own ancestor by parent links.
    ParentCycle { comp: CompId, layer: LayerId },
}

/// The parent of the layer with `id`.
pub open spec fn parent_of_layer(layers: Seq<LayerModel>, id: LayerId) -> Option<LayerId> {
    match layer_index(layers, id) {
        Some(i) => layers[i].parent,
        None => None,
    }
}

/// The id that `n` parent links lead to from `start`.
pub open spec fn climb(layers: Seq<LayerModel>, start: Option<LayerId>, n: nat) -> Option<LayerId>
    decreases n,
{
    if n == 0 {
        start
    } else {
        match climb(layers, start, (n - 1) as nat) {
            Some(id) => parent_of_layer(layers, id),
            None => None,
        }
    }
}

/// Whether `layer` is its own ancestor.
pub open spec fn on_parent_cycle(layers: Seq<LayerModel>, layer: LayerModel) -> bool {
    exists|n: nat| climb(layers, layer.parent, n) == Some(layer.id)
}

proof fn climb_from(layers: Seq<LayerModel>, start: Option<LayerId>, a: nat, b: nat, k: nat)
    requires
        climb(layers, start, a) == climb(layers, start, b),
    ensures
        climb(layers, start, a + k) == climb(layers, start, b + k),
    decreases k,
{
    if k > 0 {
        climb_from(layers, start, a, b, (k - 1) as nat);
        assert(climb(layers, start, a + k) == match climb(layers, start, (a + k - 1) as nat) {
            Some(id) => parent_of_layer(layers, id),
            None => None,
        });
        assert(climb(layers, start, b + k) == match climb(layers, start, (b + k - 1) as nat) {
            Some(id) => parent_of_layer(layers, id),
            None => None,
        });
    }
}

proof fn climb_defined_before(layers: Seq<LayerModel>, start: Option<LayerId>, n: nat, k: nat)
    requires
        k <= n,
        climb(layers, start, n) is Some,
    ensures
        climb(layers, start, k) is Some,
    decreases n - k,
{
    if k < n {
        climb_defined_before(layers, start, n, k + 1);
    }
}

/// A layer that is its own ancestor is reached within as many parent links as
/// there are layers.
pub proof fn cycles_are_short(layers: Seq<LayerModel>, layer: LayerModel, n: nat) -> (m: nat)
    requires
        layers.contains(layer),
        climb(layers, layer.parent, n) == Some(layer.id),
    ensures
        m < layers.len(),
        climb(layers, layer.parent, m) == Some(layer.id),
    decreases n,
{
    if n < layers.len() {
        n
    } else {
        let visited = Seq::new(
            (n + 1) as nat,
            |k: int| layer_index(layers, climb(layers, layer.parent, k as nat)->0)->0,
        );
        assert forall|k: int| 0 <= k < visited.len() implies 0 <= #[trigger] visited[k]
            < layers.len() && climb(layers, layer.parent, k as nat) is Some
            && layers[visited[k]].id == climb(layers, layer.parent, k as nat)->0 by {
            climb_defined_before(layers, layer.parent, n, k as nat);
            let id = climb(layers, layer.parent, k as nat)->0;
            first_where_is_first(layers, is_layer(id), 0);
            if k < n {
                climb_defined_before(layers, layer.parent, n, (k + 1) as nat);
                assert(parent_of_layer(layers, id) is Some);
            } else {
                let at = choose|at: int| 0 <= at < layers.len() && layers[at] == layer;
                assert(is_layer(id)(layers[at]));
            }
        }
        if visited.no_duplicates() {
            visited.unique_seq_to_set();
            let range = vstd::set_lib::set_int_range(0, layers.len() as int);
            vstd::set_lib::lemma_int_range(0, layers.len() as int);
            assert(visited.to_set().subset_of(range));
            vstd::set_lib::lemma_len_subset(visited.to_set(), range);
            assert(false);
        }
        let (i, j) = choose|i: int, j: int|
            0 <= i < j < visited.len() && visited[i] == visited[j];
        assert(0 <= i < j < visited.len() && visited[i] == visited[j]) by {
            let (a, b) = choose|a: int, b: int|
                0 <= a < visited.len() && 0 <= b < visited.len() && a != b && visited[a]
                    == visited[b];
            if a < b {
                assert(0 <= a < b < visited.len() && visited[a] == visited[b]);
            } else {
                assert(0 <= b < a < visited.len() && visited[b] == visited[a]);
            }
        }
        assert(climb(layers, layer.parent, i as nat) == climb(layers, layer.parent, j as nat));
        climb_from(layers, layer.parent, i as nat, j as nat, (n - j) as nat);
        cycles_are_short(layers, layer, (i + (n - j)) as nat)
    }
}

/// The errors of a layer's source.
pub open spec fn kind_errors(
    p: ProjectModel,
    comp: CompositionModel,
    layer: LayerModel,
) -> Seq<ValidationError> {
    match layer.kind {
        LayerKind::Video { asset } => asset_errors(p, comp, layer, asset),
        LayerKind::Image { asset } => asset_errors(p, comp, layer, asset),
        LayerKind::Audio { asset } => asset_errors(p, comp, layer, asset),
        LayerKind::Composition { comp: target } => if comp_index(p.compositions, target) is None {
            seq![ValidationError::UnknownComposition { comp: comp.id, layer: layer.id, target }]
        } else if target == comp.id {
            seq![ValidationError::CompositionSelfReference { comp: comp.id, layer: layer.id }]
        } else {
            Seq::empty()
        },
        _ => Seq::empty(),
    }
}

/// The error of a layer that names an asset the project does not have.
pub open spec fn asset_errors(
    p: ProjectModel,
    comp: CompositionModel,
    layer: LayerModel,
    asset: AssetId,
) -> Seq<ValidationError> {
    if asset_index(p.assets, asset) is None {
        seq![ValidationError::UnknownAsset { comp: comp.id, layer: layer.id, asset }]
    } else {
        Seq::empty()
    }
}

/// The errors of a layer's span on the timeline.
pub open spec fn span_errors(comp: CompositionModel, layer: LayerModel) -> Seq<ValidationError> {
    let first = if layer.in_frame > layer.out_frame {
        seq![ValidationError::LayerInAfterOut { comp: comp.id, layer: layer.id }]
    } else {
        Seq::empty()
    };
    if layer.out_frame > comp.duration_frames {
        first.push(
            ValidationError::LayerOutBeyondCompDuration {
                comp: comp.id,
                layer: layer.id,
                out_frame: layer.out_frame,
                comp_duration: comp.duration_frames,
            },
        )
    } else {
        first
    }
}

/// The error of a layer that is its own ancestor.
pub open spec fn parent_errors(comp: CompositionModel, layer: LayerModel) -> Seq<
    ValidationError,
> {
    if on_parent_cycle(comp.layers, layer) {
        seq![ValidationError::ParentCycle { comp: comp.id, layer: layer.id }]
    } else {
        Seq::empty()
    }
}

/// All errors of one layer.
pub open spec fn layer_errors(
    p: ProjectModel,
    comp: CompositionModel,
    layer: LayerModel,
) -> Seq<ValidationError> {
    span_errors(comp, layer) + kind_errors(p, comp, layer) + parent_errors(comp, layer)
}

/// The errors of the first `n` layers of `comp`, in order.
pub open spec fn comp_errors(p: ProjectModel, comp: CompositionModel, n: nat) -> Seq<
    ValidationError,
>
    decreases n,
{
    if n == 0 {
        Seq::empty()
    } else {
        comp_errors(p, comp, (n - 1) as nat) + layer_errors(p, comp, comp.layers[n - 1])
    }
}

/// The errors of the first `n` compositions of `p`, in order.
pub open spec fn project_errors(p: ProjectModel, n: nat) -> Seq<ValidationError>
    decreases n,
{
    if n == 0 {
        Seq::empty()
    } else {
        let c = p.compositions[n - 1];
        project_errors(p, (n - 1) as nat) + comp_errors(p, c, c.layers.len())
    }
}

/// All structural errors of `p`.
pub open spec fn validation_errors(p: ProjectModel) -> Seq<ValidationError> {
    project_errors(p, p.compositions.len())
}

/// Whether a layer spans frames of its composition, has a source that exists
/// and is not its own, and is not its own ancestor.
pub open spec fn layer_is_sound(
    p: ProjectModel,
    comp: CompositionModel,
    layer: LayerModel,
) -> bool {
    &&& layer.in_frame <= layer.out_frame <= comp.duration_frames
    &&& match layer.kind {
        LayerKind::Video { asset } => asset_index(p.assets, asset) is Some,
        LayerKind::Image { asset } => asset_index(p.assets, asset) is Some,
        LayerKind::Audio { asset } => asset_index(p.assets, asset) is Some,
        LayerKind::Composition { comp: target } => target != comp.id && comp_index(
            p.compositions,
            target,
        ) is Some,
        _ => true,
    }
    &&& !on_parent_cycle(comp.layers, layer)
}

proof fn comp_errors_empty(p: ProjectModel, comp: CompositionModel, n: nat)
    requires
        n <= comp.layers.len(),
    ensures
        comp_errors(p, comp, n).len() == 0 <==> forall|i: int|
            0 <= i < n ==> layer_is_sound(p, comp, #[trigger] comp.layers[i]),
    decreases n,
{
    if n > 0 {
        comp_errors_empty(p, comp, (n - 1) as nat);
        let l = comp.layers[n - 1];
        assert(layer_errors(p, comp, l).len() == 0 <==> layer_is_sound(p, comp, l));
    }
}

proof fn project_errors_empty(p: ProjectModel, n: nat)
    requires
        n <= p.compositions.len(),
    ensures
        project_errors(p, n).len() == 0 <==> forall|c: int, i: int|
            0 <= c < n && 0 <= i < p.compositions[c].layers.len() ==> layer_is_sound(
                p,
                p.compositions[c],
                #[trigger] p.compositions[c].layers[i],
            ),
    decreases n,
{
    if n > 0 {
        project_errors_empty(p, (n - 1) as nat);
        let comp = p.compositions[n - 1];
        comp_errors_empty(p, comp, comp.layers.len());
        if project_errors(p, n).len() == 0 {
            assert forall|c: int, i: int|
                0 <= c < n && 0 <= i < p.compositions[c].layers.len() implies layer_is_sound(
                p,
                p.compositions[c],
                #[trigger] p.compositions[c].layers[i],
            ) by {
                if c == n - 1 {
                    assert(layer_is_sound(p, comp, comp.layers[i]));
                }
            }
        }
        if forall|c: int, i: int|
            0 <= c < n && 0 <= i < p.compositions[c].layers.len() ==> layer_is_sound(
                p,
                p.compositions[c],
                #[trigger] p.compositions[c].layers[i],
            ) {
            assert forall|i: int| 0 <= i < comp.layers.len() implies layer_is_sound(
                p,
                comp,
                #[trigger] comp.layers[i],
            ) by {
                assert(layer_is_sound(
                    p,
                    p.compositions[n - 1],
                    p.compositions[n - 1].layers[i],
                ));
            }
        }
    }
}

/// A project validates exactly when every layer of every composition is sound.
pub proof fn valid_means_sound(p: ProjectModel)
    ensures
        validation_errors(p).len() == 0 <==> forall|c: int, i: int|
            0 <= c < p.compositions.len() && 0 <= i < p.compositions[c].layers.len()
                ==> layer_is_sound(
                p,
                p.compositions[c],
                #[trigger] p.compositions[c].layers[i],
            ),
{
    project_errors_empty(p, p.compositions.len());
}

impl Project {
    pub fn new() -> (r: Self)
        ensures
            r@ == new_project(),
    {
        let r = Project {
            format_version: FORMAT_VERSION,
            assets: Vec::new(),
            compositions: Vec::new(),
            next_asset_id: 1,
            next_comp_id: 1,
        };
        assert(r@.assets =~= Seq::<AssetModel>::empty());
        assert(r@.compositions =~= Seq::<CompositionModel>::empty());
        r
    }

    /// Adds an asset and returns its id.
    pub fn add_asset(&mut self, path: String, kind: AssetKind) -> (r: AssetId)
        requires
            old(self)@.next_asset_id < u32::MAX,
        ensures
            r == AssetId(old(self)@.next_asset_id),
            final(self)@ == with_asset(old(self)@, path@, kind),
    {
        broadcast use group_views;

        let id = AssetId(self.next_asset_id);
        self.next_asset_id = self.next_asset_id + 1;
        self.assets.push(Asset { id, path, kind });
        id
    }

    pub fn asset(&self, id: AssetId) -> (r: Option<&Asset>)
        ensures
            match asset_index(self@.assets, id) {
                Some(i) => r is Some && r->0@ == self@.assets[i],
                None => r is None,
            },
    {
        let mut i: usize = 0;
        while i < self.assets.len()
            invariant
                i <= self.assets.len(),
                asset_index(self@.assets, id) == first_where(self@.assets, is_asset(id), i as int),
            decreases self.assets.len() - i,
        {
            assert(self@.assets[i as int] == self.assets@[i as int]@);
            if self.assets[i].id == id {
                return Some(&self.assets[i]);
            }
            i = i + 1;
        }
        None
    }

    /// Adds a composition and returns its id.
    pub fn add_composition(&mut self, name: String, width: u32, height: u32) -> (r: CompId)
        requires
            old(self)@.next_comp_id < u32::MAX,
        ensures
            r == CompId(old(self)@.next_comp_id),
            final(self)@ == with_composition(old(self)@, name@, width, height),
    {
        broadcast use group_views;

        let id = CompId(self.next_comp_id);
        self.next_comp_id = self.next_comp_id + 1;
        self.compositions.push(Composition::new(id, name, width, height));
        id
    }

    /// The position of the first composition with `id`.
    pub fn comp_position(&self, id: CompId) -> (r: Option<usize>)
        ensures
            match comp_index(self@.compositions, id) {
                Some(i) => r == Some(i as usize) && 0 <= i < self.compositions.len(),
                None => r is None,
            },
    {
        let mut i: usize = 0;
        while i < self.compositions.len()
            invariant
                i <= self.compositions.len(),
                comp_index(self@.compositions, id) == first_where(
                    self@.compositions,
                    is_comp(id),
                    i as int,
                ),
            decreases self.compositions.len() - i,
        {
            assert(self@.compositions[i as int] == self.compositions@[i as int]@);
            if self.compositions[i].id == id {
                return Some(i);
            }
            i = i + 1;
        }
        None
    }

    pub fn composition(&self, id: CompId) -> (r: Option<&Composition>)
        ensures
            match comp_index(self@.compositions, id) {
                Some(i) => r is Some && r->0@ == self@.compositions[i],
                None => r is None,
            },
    {
        match self.comp_position(id) {
            Some(i) => Some(&self.compositions[i]),
            None => None,
        }
    }

    pub fn composition_mut(&mut self, id: CompId) -> (r: Option<&mut Composition>)
        ensures
            match comp_index(old(self)@.compositions, id) {
                Some(i) => match r {
                    Some(c) => {
                        &&& c@ == old(self)@.compositions[i]
                        &&& final(self)@ == (ProjectModel {
                            compositions: old(self)@.compositions.update(i, final(c)@),
                            ..old(self)@
                        })
                    },
                    None => false,
                },
                None => r is None && final(self)@ == old(self)@,
            },
    {
        broadcast use group_views;

        match self.comp_position(id) {
            Some(i) => Some(&mut self.compositions[i]),
            None => None,
        }
    }

    /// Works out the next ids where they are not known, in every composition
    /// too.
    pub fn fixup_after_load(&mut self)
        requires
            project_can_fix_up(old(self)@),
        ensures
            final(self)@ == project_fixed_up(old(self)@),
    {
        let ghost start = self@;
        if self.next_asset_id == 0 {
            let mut largest: u32 = 0;
            let mut i: usize = 0;
            while i < self.assets.len()
                invariant
                    i <= self.assets.len(),
                    largest == largest_asset_id(self@.assets.take(i as int)),
                decreases self.assets.len() - i,
            {
                let ghost head = self@.assets.take(i + 1);
                assert(head.drop_last() =~= self@.assets.take(i as int));
                assert(head.last() == self.assets@[i as int]@);
                if self.assets[i].id.0 > largest {
                    largest = self.assets[i].id.0;
                }
                i = i + 1;
            }
            assert(self@.assets.take(i as int) =~= self@.assets);
            self.next_asset_id = largest + 1;
        }
        if self.next_comp_id == 0 {
            let mut largest: u32 = 0;
            let mut i: usize = 0;
            while i < self.compositions.len()
                invariant
                    i <= self.compositions.len(),
                    largest == largest_comp_id(self@.compositions.take(i as int)),
                decreases self.compositions.len() - i,
            {
                let ghost head = self@.compositions.take(i + 1);
                assert(head.drop_last() =~= self@.compositions.take(i as int));
                assert(head.last() == self.compositions@[i as int]@);
                if self.compositions[i].id.0 > largest {
                    largest = self.compositions[i].id.0;
                }
                i = i + 1;
            }
            assert(self@.compositions.take(i as int) =~= self@.compositions);
            self.next_comp_id = largest + 1;
        }
        let mut i: usize = 0;
        while i < self.compositions.len()
            invariant
                i <= self.compositions.len(),
                project_can_fix_up(start),
                self@.format_version == start.format_version,
                self@.assets == start.assets,
                self@.next_asset_id == project_fixed_up(start).next_asset_id,
                self@.next_comp_id == project_fixed_up(start).next_comp_id,
                self@.compositions.len() == start.compositions.len(),
                forall|k: int|
                    0 <= k < i ==> #[trigger] self@.compositions[k] == fixed_up(
                        start.compositions[k],
                    ),
                forall|k: int|
                    i <= k < self@.compositions.len() ==> #[trigger] self@.compositions[k]
                        == start.compositions[k],
            decreases self.compositions.len() - i,
        {
            let ghost before = self@;
            proof {
                assert(self@.compositions[i as int] == start.compositions[i as int]);
                assert(can_fix_up(start.compositions[i as int]));
            }
            self.compositions[i].fixup_after_load();
            assert(self@.compositions =~= before.compositions.update(
                i as int,
                fixed_up(start.compositions[i as int]),
            ));
            i = i + 1;
        }
        assert(self@.compositions =~= project_fixed_up(start).compositions);
    }

    /// Walks the project and returns all violations of its structure. `Ok`
    /// means that the project is consistent in itself; whether asset files
    /// exist on disk is not looked at.
    pub fn validate(&self) -> (r: Result<(), Vec<ValidationError>>)
        ensures
            r is Ok <==> validation_errors(self@).len() == 0,
            r is Err ==> r->Err_0@ == validation_errors(self@),
    {
        let mut errors: Vec<ValidationError> = Vec::new();
        let mut c: usize = 0;
        while c < self.compositions.len()
            invariant
                c <= self.compositions.len(),
                errors@ == project_errors(self@, c as nat),
            decreases self.compositions.len() - c,
        {
            let comp = &self.compositions[c];
            assert(self@.compositions[c as int] == comp@);
            let ghost before = errors@;
            let mut l: usize = 0;
            while l < comp.layers.len()
                invariant
                    l <= comp.layers.len(),
                    errors@ == before + comp_errors(self@, comp@, l as nat),
                decreases comp.layers.len() - l,
            {
                assert(comp@.layers[l as int] == comp.layers@[l as int]@);
                self.check_layer(comp, l, &mut errors);
                l = l + 1;
                assert(errors@ =~= before + comp_errors(self@, comp@, l as nat));
            }
            c = c + 1;
        }
        if errors.is_empty() {
            Ok(())
        } else {
            Err(errors)
        }
    }

    fn check_layer(&self, comp: &Composition, at: usize, errors: &mut Vec<ValidationError>)
        requires
            at < comp.layers.len(),
        ensures
            final(errors)@ == old(errors)@ + layer_errors(self@, comp@, comp@.layers[at as int]),
    {
        let layer = &comp.layers[at];
        assert(comp@.layers[at as int] == layer@);
        if layer.in_frame > layer.out_frame {
            errors.push(ValidationError::LayerInAfterOut { comp: comp.id, layer: layer.id });
        }
        if layer.out_frame > comp.duration_frames {
            errors.push(
                ValidationError::LayerOutBeyondCompDuration {
                    comp: comp.id,
                    layer: layer.id,
                    out_frame: layer.out_frame,
                    comp_duration: comp.duration_frames,
                },
            );
        }
        assert(errors@ =~= old(errors)@ + span_errors(comp@, layer@));
        let ghost with_span = errors@;
        match layer.kind {
            LayerKind::Video { asset }
            | LayerKind::Image { asset }
            | LayerKind::Audio { asset } => {
                if self.asset(asset).is_none() {
                    errors.push(
                        ValidationError::UnknownAsset { comp: comp.id, layer: layer.id, asset },
                    );
                }
            },
            LayerKind::Composition { comp: target } => {
                if self.composition(target).is_none() {
                    errors.push(
                        ValidationError::UnknownComposition {
                            comp: comp.id,
                            layer: layer.id,
                            target,
                        },
                    );
                } else if target == comp.id {
                    errors.push(
                        ValidationError::CompositionSelfReference {
                            comp: comp.id,
                            layer: layer.id,
                        },
                    );
                }
            },
            _ => {},
        }
        assert(errors@ =~= with_span + kind_errors(self@, comp@, layer@));
        let ghost with_kind = errors@;
        if is_own_ancestor(comp, at) {
            errors.push(ValidationError::ParentCycle { comp: comp.id, layer: layer.id });
        }
        assert(errors@ =~= with_kind + parent_errors(comp@, layer@));
        assert(errors@ =~= old(errors)@ + layer_errors(self@, comp@, layer@));
    }
}

fn is_own_ancestor(comp: &Composition, at: usize) -> (r: bool)
    requires
        at < comp.layers.len(),
    ensures
        r == on_parent_cycle(comp@.layers, comp@.layers[at as int]),
{
    let target: LayerId = comp.layers[at].id;
    let mut next: Option<LayerId> = comp.layers[at].parent;
    let ghost layer = comp@.layers[at as int];
    assert(layer == comp.layers@[at as int]@);
    let mut n: usize = 0;
    while n < comp.layers.len()
        invariant
            n <= comp.layers.len(),
            layer.id == target,
            at < comp.layers.len(),
            layer == comp@.layers[at as int],
            next == climb(comp@.layers, layer.parent, n as nat),
            forall|k: nat| k < n ==> #[trigger] climb(comp@.layers, layer.parent, k) != Some(target),
        decreases comp.layers.len() - n,
    {
        match next {
            None => {
                proof {
                    assert forall|k: nat| #[trigger]
                        climb(comp@.layers, layer.parent, k) != Some(layer.id) by {
                        if k >= n && climb(comp@.layers, layer.parent, k) is Some {
                            climb_defined_before(comp@.layers, layer.parent, k, n as nat);
                        }
                    }
                }
                return false;
            },
            Some(id) => {
                if id == target {
                    return true;
                }
                next = match comp.layer_position(id) {
                    Some(i) => {
                        assert(comp@.layers[i as int] == comp.layers@[i as int]@);
                        comp.layers[i].parent
                    },
                    None => None,
                };
            },
        }
        n = n + 1;
    }
    proof {
        if on_parent_cycle(comp@.layers, layer) {
            let k = choose|k: nat| climb(comp@.layers, layer.parent, k) == Some(layer.id);
            let m = cycles_are_short(comp@.layers, layer, k);
            assert(false);
        }
    }
    false
}

impl Default for Project {
    fn default() -> (r: Self)
        ensures
            r@ == new_project(),
    {
        Project::new()
    }
}

/// The composition and the layer that an error is about.
pub open spec fn error_place(e: ValidationError) -> (CompId, LayerId) {
    match e {
        ValidationError::LayerInAfterOut { comp, layer } => (comp, layer),
        ValidationError::LayerOutBeyondCompDuration { comp, layer, .. } => (comp, layer),
        ValidationError::UnknownAsset { comp, layer, .. } => (comp, layer),
        ValidationError::UnknownComposition { comp, layer, .. } => (comp, layer),
        ValidationError::CompositionSelfReference { comp, layer } => (comp, layer),
        ValidationError::ParentCycle { comp, layer } => (comp, layer),
    }
}

/// The source that a layer takes from the assets.
pub open spec fn asset_of(kind: LayerKind) -> Option<AssetId> {
    match kind {
        LayerKind::Video { asset } => Some(asset),
        LayerKind::Image { asset } => Some(asset),
        LayerKind::Audio { asset } => Some(asset),
        _ => None,
    }
}

/// Whether `layer` has the fault that `e` reports.
pub open spec fn has_fault(
    p: ProjectModel,
    comp: CompositionModel,
    layer: LayerModel,
    e: ValidationError,
) -> bool {
    match e {
        ValidationError::LayerInAfterOut { .. } => layer.in_frame > layer.out_frame,
        ValidationError::LayerOutBeyondCompDuration { out_frame, comp_duration, .. } => out_frame
            == layer.out_frame && comp_duration == comp.duration_frames && out_frame
            > comp_duration,
        ValidationError::UnknownAsset { asset, .. } => asset_of(layer.kind) == Some(asset)
            && asset_index(p.assets, asset) is None,
        ValidationError::UnknownComposition { target, .. } => layer.kind
            == (LayerKind::Composition { comp: target }) && comp_index(p.compositions, target)
            is None,
        ValidationError::CompositionSelfReference { .. } => layer.kind == (
        LayerKind::Composition { comp: comp.id }) && comp_index(p.compositions, comp.id) is Some,
        ValidationError::ParentCycle { .. } => on_parent_cycle(comp.layers, layer),
    }
}

/// Each fault of a layer is reported, each report is of a fault that is there,
/// and it names the layer and its composition.
pub proof fn errors_are_the_faults(
    p: ProjectModel,
    comp: CompositionModel,
    layer: LayerModel,
    e: ValidationError,
)
    ensures
        layer_errors(p, comp, layer).contains(e) <==> error_place(e) == (comp.id, layer.id)
            && has_fault(p, comp, layer, e),
{
    let (a, b, d) = (span_errors(comp, layer), kind_errors(p, comp, layer), parent_errors(
        comp,
        layer,
    ));
    let all = layer_errors(p, comp, layer);
    assert forall|k: int| 0 <= k < a.len() implies all.contains(#[trigger] a[k]) by {
        assert(all[k] == a[k]);
    }
    assert forall|k: int| 0 <= k < b.len() implies all.contains(#[trigger] b[k]) by {
        assert(all[a.len() + k] == b[k]);
    }
    assert forall|k: int| 0 <= k < d.len() implies all.contains(#[trigger] d[k]) by {
        assert(all[a.len() + b.len() + k] == d[k]);
    }
    if all.contains(e) {
        let k = choose|k: int| 0 <= k < all.len() && all[k] == e;
        if k < a.len() {
            assert(e == a[k]);
        } else if k < a.len() + b.len() {
            assert(e == b[k - a.len()]);
        } else {
            assert(e == d[k - a.len() - b.len()]);
        }
    }
    if error_place(e) == (comp.id, layer.id) && has_fault(p, comp, layer, e) {
        match e {
            ValidationError::LayerInAfterOut { .. } => {
                assert(a[0] == e);
            },
            ValidationError::LayerOutBeyondCompDuration { .. } => {
                assert(a[a.len() - 1] == e);
            },
            ValidationError::ParentCycle { .. } => {
                assert(d[0] == e);
            },
            _ => {
                assert(b[0] == e);
            },
        }
    }
}

/// A new asset comes last, with the path and the kind that were asked for, and
/// nothing else of the project changes.
pub proof fn added_asset_is_as_asked(p: ProjectModel, path: Seq<char>, kind: AssetKind)
    requires
        p.next_asset_id < u32::MAX,
    ensures
        ({
            let after = with_asset(p, path, kind);
            &&& after.assets.drop_last() == p.assets
            &&& after.assets.last().path == path
            &&& after.assets.last().kind == kind
            &&& after.assets.last().id.0 == p.next_asset_id
            &&& after.next_asset_id == p.next_asset_id + 1
            &&& ProjectModel { assets: p.assets, next_asset_id: p.next_asset_id, ..after } == p
        }),
{
    assert(with_asset(p, path, kind).assets.drop_last() =~= p.assets);
}

/// A new composition comes last, with the name and the size that were asked
/// for, and nothing else of the project changes.
pub proof fn added_composition_is_as_asked(
    p: ProjectModel,
    name: Seq<char>,
    width: u32,
    height: u32,
)
    requires
        p.next_comp_id < u32::MAX,
    ensures
        ({
            let after = with_composition(p, name, width, height);
            let c = after.compositions.last();
            &&& after.compositions.drop_last() == p.compositions
            &&& c.name == name
            &&& c.width == width
            &&& c.height == height
            &&& c.id.0 == p.next_comp_id
            &&& after.next_comp_id == p.next_comp_id + 1
            &&& ProjectModel {
                compositions: p.compositions,
                next_comp_id: p.next_comp_id,
                ..after
            } == p
        }),
{
    assert(with_composition(p, name, width, height).compositions.drop_last() =~= p.compositions);
}

/// The ids that fixing up gives out next are above all ids in use; ids that
/// are known already stay.
pub proof fn fixed_up_ids_are_above_all(p: ProjectModel, i: int, j: int)
    requires
        project_can_fix_up(p),
        0 <= i < p.assets.len(),
        0 <= j < p.compositions.len(),
    ensures
        p.next_asset_id == 0 ==> p.assets[i].id.0 < project_fixed_up(p).next_asset_id,
        p.next_comp_id == 0 ==> p.compositions[j].id.0 < project_fixed_up(p).next_comp_id,
        p.next_asset_id != 0 ==> project_fixed_up(p).next_asset_id == p.next_asset_id,
        p.next_comp_id != 0 ==> project_fixed_up(p).next_comp_id == p.next_comp_id,
        project_fixed_up(p).assets == p.assets,
        project_fixed_up(p).compositions.len() == p.compositions.len(),
        project_fixed_up(p).compositions[j].layers == p.compositions[j].layers,
{
    asset_id_is_not_larger(p.assets, i);
    comp_id_is_not_larger(p.compositions, j);
}

proof fn asset_id_is_not_larger(assets: Seq<AssetModel>, i: int)
    requires
        0 <= i < assets.len(),
    ensures
        assets[i].id.0 <= largest_asset_id(assets),
    decreases assets.len(),
{
    if i < assets.len() - 1 {
        asset_id_is_not_larger(assets.drop_last(), i);
    }
}

proof fn comp_id_is_not_larger(comps: Seq<CompositionModel>, i: int)
    requires
        0 <= i < comps.len(),
    ensures
        comps[i].id.0 <= largest_comp_id(comps),
    decreases comps.len(),
{
    if i < comps.len() - 1 {
        comp_id_is_not_larger(comps.drop_last(), i);
    }
}

/// A file that holds nothing and knows no ids is a new project once it is
/// fixed up: ids count from one.
pub proof fn empty_project_is_a_new_one(p: ProjectModel)
    requires
        p.format_version == FORMAT_VERSION,
        p.assets.len() == 0,
        p.compositions.len() == 0,
        p.next_asset_id == 0,
        p.next_comp_id == 0,
    ensures
        project_fixed_up(p) == new_project(),
        project_fixed_up(p).next_asset_id == 1,
        project_fixed_up(p).next_comp_id == 1,
        validation_errors(project_fixed_up(p)).len() == 0,
{
    assert(project_fixed_up(p).compositions =~= new_project().compositions);
    assert(project_fixed_up(p).assets =~= new_project().assets);
}

/// Fixing up skips no id: the next id is one above an id in use, or one if
/// there is none.
pub proof fn fixed_up_ids_skip_none(p: ProjectModel)
    requires
        project_can_fix_up(p),
        p.next_asset_id == 0,
        p.next_comp_id == 0,
    ensures
        project_fixed_up(p).next_asset_id == 1 || exists|i: int|
            0 <= i < p.assets.len() && (#[trigger] p.assets[i]).id.0 + 1 == project_fixed_up(
                p,
            ).next_asset_id,
        project_fixed_up(p).next_comp_id == 1 || exists|i: int|
            0 <= i < p.compositions.len() && (#[trigger] p.compositions[i]).id.0 + 1
                == project_fixed_up(p).next_comp_id,
{
    largest_asset_is_in_use(p.assets);
    largest_comp_is_in_use(p.compositions);
}

proof fn largest_asset_is_in_use(assets: Seq<AssetModel>)
    ensures
        largest_asset_id(assets) == 0 || exists|i: int|
            0 <= i < assets.len() && (#[trigger] assets[i]).id.0 == largest_asset_id(assets),
    decreases assets.len(),
{
    if assets.len() > 0 {
        let init = assets.drop_last();
        largest_asset_is_in_use(init);
        if assets.last().id.0 > largest_asset_id(init) {
            assert(assets[assets.len() - 1].id.0 == largest_asset_id(assets));
        } else if largest_asset_id(assets) != 0 {
            let i = choose|i: int|
                0 <= i < init.len() && (#[trigger] init[i]).id.0 == largest_asset_id(init);
            assert(assets[i].id.0 == largest_asset_id(assets));
        }
    }
}

proof fn largest_comp_is_in_use(comps: Seq<CompositionModel>)
    ensures
        largest_comp_id(comps) == 0 || exists|i: int|
            0 <= i < comps.len() && (#[trigger] comps[i]).id.0 == largest_comp_id(comps),
    decreases comps.len(),
{
    if comps.len() > 0 {
        let init = comps.drop_last();
        largest_comp_is_in_use(init);
        if comps.last().id.0 > largest_comp_id(init) {
            assert(comps[comps.len() - 1].id.0 == largest_comp_id(comps));
        } else if largest_comp_id(comps) != 0 {
            let i = choose|i: int|
                0 <= i < init.len() && (#[trigger] init[i]).id.0 == largest_comp_id(init);
            assert(comps[i].id.0 == largest_comp_id(comps));
        }
    }
}

} // verus!
