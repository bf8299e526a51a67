//! The graph editor: one row for each animated number of the selected layer,
//! with keyframes that can be selected, dragged, added and deleted.

use crate::model::curve::{scalar_keyframes_view, Curve, CurveModel, InterpKind, Keyframe};
use crate::model::effect::{Effect, EffectModel};
use crate::model::time::Rational;
use crate::params::manifest::{dotted, dotted_path, EffectManifest, ParamDecl, ParamKind};
use crate::params::values::{stored, ParamValue, ParamValueModel, ParamValues};
use crate::scalar::Scalar;
use crate::seqs::{first_where, first_where_is_first, group_views, views, views_push};
use crate::studio::curve_edit::{
    after_curve_action, apply_curve_action, curve_keyframes, keyframes_of, CurveAction,
};
use crate::studio::effects_panel::{
    edited, set_value_is_read_back, EffectsAction, EffectsEdit,
};
use crate::studio::registry::{manifest_index, ManifestRegistry};
use crate::text::str_eq;
use vstd::prelude::*;

verus! {

/// One keyframe of one parameter.
#[derive(Clone, Debug, PartialEq, Eq)]
pub struct GraphKey {
    pub effect_index: usize,
    pub param_id: String,
    pub index: usize,
}

/// What a key holds.
#[verifier::ext_equal]
pub struct KeyModel {
    pub effect_index: int,
    pub param_id: Seq<char>,
    pub index: int,
}

impl View for GraphKey {
    type V = KeyModel;

    open spec fn view(&self) -> KeyModel {
        KeyModel {
            effect_index: self.effect_index as int,
            param_id: self.param_id@,
            index: self.index as int,
        }
    }
}

impl GraphKey {
    fn is(&self, other: &GraphKey) -> (r: bool)
        ensures
            r == (self@ == other@),
    {
        self.effect_index == other.effect_index && self.index == other.index && str_eq(
            &self.param_id,
            &other.param_id,
        )
    }
}

/// The selected keyframes, in the order in which they were selected. None is
/// selected twice.
#[derive(Debug, PartialEq)]
pub struct GraphSelection {
    keys: Vec<GraphKey>,
}

impl View for GraphSelection {
    type V = Seq<KeyModel>;

    closed spec fn view(&self) -> Seq<KeyModel> {
        views(self.keys@)
    }
}

impl Default for GraphSelection {
    fn default() -> (r: Self)
        ensures
            r@ == Seq::<KeyModel>::empty(),
    {
        broadcast use group_views;

        GraphSelection { keys: Vec::new() }
    }
}

/// The test for a key.
pub open spec fn is_key(k: KeyModel) -> spec_fn(KeyModel) -> bool {
    |x: KeyModel| x == k
}

/// The selection after a click on `k`: with shift the keyframe joins or leaves
/// it, without it is the only one.
pub open spec fn clicked(s: Seq<KeyModel>, k: KeyModel, shift: bool) -> Seq<KeyModel> {
    if !shift {
        seq![k]
    } else {
        match first_where(s, is_key(k), 0) {
            Some(i) => s.remove(i),
            None => s.push(k),
        }
    }
}

/// No keyframe is ever selected twice, and a click with shift changes whether
/// its keyframe is selected and nothing else.
pub proof fn click_toggles(s: Seq<KeyModel>, k: KeyModel, shift: bool, other: KeyModel)
    requires
        s.no_duplicates(),
    ensures
        clicked(s, k, shift).no_duplicates(),
        clicked(s, k, true).contains(k) == !s.contains(k),
        other != k ==> clicked(s, k, true).contains(other) == s.contains(other),
{
    first_where_is_first(s, is_key(k), 0);
    let t = clicked(s, k, true);
    match first_where(s, is_key(k), 0) {
        Some(i) => {
            assert(s[i] == k);
            assert forall|a: int, b: int| 0 <= a < t.len() && 0 <= b < t.len() && a != b implies t[a]
                != t[b] by {
                let x = if a < i {
                    a
                } else {
                    a + 1
                };
                let y = if b < i {
                    b
                } else {
                    b + 1
                };
                assert(t[a] == s[x] && t[b] == s[y]);
            }
            assert(s.contains(k));
            if t.contains(k) {
                let a = choose|a: int| 0 <= a < t.len() && t[a] == k;
                let x = if a < i {
                    a
                } else {
                    a + 1
                };
                assert(s[x] == k);
            }
            if t.contains(other) {
                let a = choose|a: int| 0 <= a < t.len() && t[a] == other;
                let x = if a < i {
                    a
                } else {
                    a + 1
                };
                assert(s[x] == other);
            }
            if s.contains(other) && other != k {
                let x = choose|x: int| 0 <= x < s.len() && s[x] == other;
                let a = if x < i {
                    x
                } else {
                    x - 1
                };
                assert(t[a] == other);
            }
        },
        None => {
            assert(t[s.len() as int] == k);
            if s.contains(k) {
                let x = choose|x: int| 0 <= x < s.len() && s[x] == k;
                assert(is_key(k)(s[x]));
            }
            if s.contains(other) {
                let x = choose|x: int| 0 <= x < s.len() && s[x] == other;
                assert(t[x] == other);
            }
        },
    }
}

impl GraphSelection {
    #[verifier::type_invariant]
    spec fn inv(self) -> bool {
        views(self.keys@).no_duplicates()
    }

    /// The selected keyframes.
    pub fn keys(&self) -> (r: &Vec<GraphKey>)
        ensures
            views(r@) == self@,
            self@.no_duplicates(),
    {
        proof {
            use_type_invariant(self);
        }
        &self.keys
    }

    fn position(&self, key: &GraphKey) -> (r: Option<usize>)
        ensures
            match first_where(self@, is_key(key@), 0) {
                Some(i) => r == Some(i as usize) && 0 <= i < self.keys.len(),
                None => r is None,
            },
    {
        let mut i: usize = 0;
        while i < self.keys.len()
            invariant
                i <= self.keys.len(),
                first_where(self@, is_key(key@), 0) == first_where(
                    self@,
                    is_key(key@),
                    i as int,
                ),
            decreases self.keys.len() - i,
        {
            assert(self@[i as int] == self.keys@[i as int]@);
            if self.keys[i].is(key) {
                return Some(i);
            }
            i = i + 1;
        }
        None
    }

    /// Whether the keyframe is selected.
    pub fn contains(&self, key: &GraphKey) -> (r: bool)
        ensures
            r == self@.contains(key@),
    {
        proof {
            first_where_is_first(self@, is_key(key@), 0);
            if self@.contains(key@) {
                let x = choose|x: int| 0 <= x < self@.len() && self@[x] == key@;
                assert(is_key(key@)(self@[x]));
            }
        }
        self.position(key).is_some()
    }

    /// A click on a keyframe.
    pub fn click(&mut self, key: GraphKey, shift: bool)
        ensures
            final(self)@ == clicked(old(self)@, key@, shift),
    {
        broadcast use group_views;

        let mut keys: Vec<GraphKey> = Vec::new();
        proof {
            use_type_invariant(&*self);
            click_toggles(self@, key@, shift, key@);
        }
        if shift {
            let at = self.position(&key);
            std::mem::swap(&mut keys, &mut self.keys);
            match at {
                Some(i) => {
                    keys.remove(i);
                },
                None => {
                    keys.push(key);
                },
            }
        } else {
            keys.push(key);
            assert(views(keys@) =~= seq![key@]);
        }
        self.keys = keys;
    }
}

/// An animated number of an effect.
#[derive(Debug, PartialEq)]
pub struct AnimatedRow {
    pub effect_index: usize,
    pub effect_label: String,
    pub param_id: String,
    pub param_label: String,
    pub min: Scalar,
    pub max: Scalar,
    pub curve: Curve<Scalar>,
}

/// What a row holds.
#[verifier::ext_equal]
pub struct RowModel {
    pub effect_index: int,
    pub effect_label: Seq<char>,
    pub param_id: Seq<char>,
    pub param_label: Seq<char>,
    pub min: Scalar,
    pub max: Scalar,
    pub curve: CurveModel<Scalar>,
}

impl View for AnimatedRow {
    type V = RowModel;

    open spec fn view(&self) -> RowModel {
        RowModel {
            effect_index: self.effect_index as int,
            effect_label: self.effect_label@,
            param_id: self.param_id@,
            param_label: self.param_label@,
            min: self.min,
            max: self.max,
            curve: self.curve@,
        }
    }
}

/// The rows for `params` under `prefix`: numbers that hold a curve, in
/// declaration order, also those in groups; an optional group counts only
/// while it is on.
pub open spec fn param_rows(
    params: Seq<ParamDecl>,
    prefix: Seq<char>,
    effect_index: int,
    effect_label: Seq<char>,
    values: Map<Seq<char>, ParamValueModel>,
) -> Seq<RowModel>
    decreases params,
{
    if params.len() == 0 {
        Seq::empty()
    } else {
        let n = params.len() - 1;
        let before = param_rows(params.subrange(0, n), prefix, effect_index, effect_label, values);
        let id = dotted(prefix, params[n].id@);
        match params[n].kind {
            ParamKind::Float { range, .. } => match stored(values, id) {
                Some(ParamValueModel::FloatCurve(curve)) => before.push(
                    RowModel {
                        effect_index,
                        effect_label,
                        param_id: id,
                        param_label: params[n].display_name@,
                        min: range.min,
                        max: range.max,
                        curve,
                    },
                ),
                _ => before,
            },
            ParamKind::Group { parameters } => before + param_rows(
                parameters@,
                id,
                effect_index,
                effect_label,
                values,
            ),
            ParamKind::OptionalGroup { parameters, .. } => if stored(values, id) == Some(
                ParamValueModel::GroupEnabled(true),
            ) {
                before + param_rows(parameters@, id, effect_index, effect_label, values)
            } else {
                before
            },
            _ => before,
        }
    }
}

/// The rows of a layer's effects in order. An effect without a manifest has
/// none.
pub open spec fn effect_rows(effects: Seq<EffectModel>, manifests: Seq<EffectManifest>) -> Seq<
    RowModel,
>
    decreases effects.len(),
{
    if effects.len() == 0 {
        Seq::empty()
    } else {
        let n = effects.len() - 1;
        let before = effect_rows(effects.drop_last(), manifests);
        match manifest_index(manifests, effects[n].id, 0) {
            Some(m) => before + param_rows(
                manifests[m].parameters@,
                Seq::empty(),
                n,
                effects[n].id,
                effects[n].values,
            ),
            None => before,
        }
    }
}

fn collect_from_params(
    params: &Vec<ParamDecl>,
    prefix: &str,
    effect_index: usize,
    effect_label: &str,
    values: &ParamValues,
    out: &mut Vec<AnimatedRow>,
)
    ensures
        views(final(out)@) == views(old(out)@) + param_rows(
            params@,
            prefix@,
            effect_index as int,
            effect_label@,
            values@,
        ),
    decreases params@,
{
    let ghost start = views(out@);
    let ghost index = effect_index as int;
    let mut n: usize = 0;
    assert(start + Seq::<RowModel>::empty() =~= start);
    while n < params.len()
        invariant
            n <= params.len(),
            index == effect_index,
            views(out@) == start + param_rows(
                params@.subrange(0, n as int),
                prefix@,
                index,
                effect_label@,
                values@,
            ),
        decreases params.len() - n,
    {
        let ghost head = params@.subrange(0, n + 1);
        let ghost before = param_rows(
            params@.subrange(0, n as int),
            prefix@,
            index,
            effect_label@,
            values@,
        );
        let ghost rows = out@;
        proof {
            assert(head.subrange(0, n as int) =~= params@.subrange(0, n as int));
            assert(head[n as int] == params@[n as int]);
        }
        let p = &params[n];
        let id = dotted_path(prefix, &p.id);
        match &p.kind {
            ParamKind::Float { range, .. } => {
                if let Some(curve) = values.float_curve(&id) {
                    let row = AnimatedRow {
                        effect_index,
                        effect_label: effect_label.to_owned(),
                        param_id: id.clone(),
                        param_label: p.display_name.clone(),
                        min: range.min,
                        max: range.max,
                        curve: curve.duplicate(),
                    };
                    out.push(row);
                    proof {
                        views_push(rows, row);
                        assert((start + before).push(row@) =~= start + before.push(row@));
                    }
                }
            },
            ParamKind::Group { parameters } => {
                collect_from_params(parameters, &id, effect_index, effect_label, values, out);
                proof {
                    let inner = param_rows(parameters@, id@, index, effect_label@, values@);
                    assert((start + before) + inner =~= start + (before + inner));
                }
            },
            ParamKind::OptionalGroup { parameters, .. } => {
                if let Some(true) = values.group_enabled(&id) {
                    collect_from_params(parameters, &id, effect_index, effect_label, values, out);
                    proof {
                        let inner = param_rows(parameters@, id@, index, effect_label@, values@);
                        assert((start + before) + inner =~= start + (before + inner));
                    }
                }
            },
            _ => {},
        }
        n = n + 1;
    }
    assert(params@.subrange(0, n as int) =~= params@);
}

/// The rows of a layer's effects in order.
pub fn collect_animated_rows(effects: &Vec<Effect>, manifests: &ManifestRegistry) -> (r: Vec<
    AnimatedRow,
>)
    ensures
        views(r@) == effect_rows(views(effects@), manifests@),
{
    broadcast use group_views;

    let mut out: Vec<AnimatedRow> = Vec::new();
    let mut i: usize = 0;
    while i < effects.len()
        invariant
            i <= effects.len(),
            views(out@) == effect_rows(views(effects@).take(i as int), manifests@),
        decreases effects.len() - i,
    {
        proof {
            let head = views(effects@).take(i + 1);
            assert(head.drop_last() =~= views(effects@).take(i as int));
            assert(head[i as int] == effects@[i as int]@);
            reveal_strlit("");
            assert(""@ =~= Seq::<char>::empty());
        }
        let e = &effects[i];
        if let Some(m) = manifests.get(&e.id) {
            collect_from_params(&m.parameters, "", i, &e.id, &e.values, &mut out);
        }
        i = i + 1;
    }
    assert(views(effects@).take(i as int) =~= views(effects@));
    out
}

/// The keyframes of a row; a constant has one at the beginning.
pub open spec fn row_keyframes(row: RowModel) -> Seq<Keyframe<Scalar>> {
    curve_keyframes(row.curve, Rational { num: 0, den: 30 })
}

/// The edit that gives a row the keyframes `kfs`.
pub open spec fn row_edit(row: RowModel, kfs: Seq<Keyframe<Scalar>>) -> EffectsEdit {
    EffectsEdit::SetValue {
        effect_index: row.effect_index,
        id: row.param_id,
        value: ParamValueModel::FloatCurve(CurveModel::Animated(kfs)),
    }
}

fn row_action(row: &AnimatedRow, kfs: Vec<Keyframe<Scalar>>) -> (r: EffectsAction)
    ensures
        r@ == row_edit(row@, kfs@),
{
    broadcast use scalar_keyframes_view;

    EffectsAction::SetValue {
        effect_index: row.effect_index,
        id: row.param_id.clone(),
        value: ParamValue::FloatCurve(Curve::Animated(kfs)),
    }
}

/// `kfs` with another interpolation at the positions `at`.
pub open spec fn with_interp(
    kfs: Seq<Keyframe<Scalar>>,
    at: Seq<usize>,
    interp: InterpKind,
) -> Seq<Keyframe<Scalar>> {
    Seq::new(
        kfs.len(),
        |i: int|
            if at.contains(i as usize) {
                Keyframe { interp, ..kfs[i] }
            } else {
                kfs[i]
            },
    )
}

/// `kfs` without the keyframes at the positions `at`.
pub open spec fn without(kfs: Seq<Keyframe<Scalar>>, at: Seq<usize>) -> Seq<Keyframe<Scalar>>
    decreases kfs.len(),
{
    if kfs.len() == 0 {
        kfs
    } else {
        let before = without(kfs.drop_last(), at);
        if at.contains((kfs.len() - 1) as usize) {
            before
        } else {
            before.push(kfs.last())
        }
    }
}

fn holds(at: &Vec<usize>, i: usize) -> (r: bool)
    ensures
        r == at@.contains(i),
{
    let mut k: usize = 0;
    while k < at.len()
        invariant
            k <= at.len(),
            forall|j: int| 0 <= j < k ==> at@[j] != i,
        decreases at.len() - k,
    {
        if at[k] == i {
            return true;
        }
        k = k + 1;
    }
    false
}

fn interp_set(kfs: &Vec<Keyframe<Scalar>>, at: &Vec<usize>, interp: InterpKind) -> (r: Vec<
    Keyframe<Scalar>,
>)
    ensures
        r@ == with_interp(kfs@, at@, interp),
{
    let mut out: Vec<Keyframe<Scalar>> = Vec::new();
    let mut i: usize = 0;
    while i < kfs.len()
        invariant
            i <= kfs.len(),
            out@.len() == i,
            forall|k: int| 0 <= k < i ==> out@[k] == with_interp(kfs@, at@, interp)[k],
        decreases kfs.len() - i,
    {
        let k = kfs[i];
        if holds(at, i) {
            out.push(Keyframe { t: k.t, v: k.v, interp });
        } else {
            out.push(k);
        }
        i = i + 1;
    }
    assert(out@ =~= with_interp(kfs@, at@, interp));
    out
}

fn keep_others(kfs: &Vec<Keyframe<Scalar>>, at: &Vec<usize>) -> (r: Vec<Keyframe<Scalar>>)
    ensures
        r@ == without(kfs@, at@),
{
    let mut out: Vec<Keyframe<Scalar>> = Vec::new();
    let mut i: usize = 0;
    assert(kfs@.take(0) =~= Seq::<Keyframe<Scalar>>::empty());
    assert(out@ =~= kfs@.take(0));
    while i < kfs.len()
        invariant
            i <= kfs.len(),
            out@ == without(kfs@.take(i as int), at@),
        decreases kfs.len() - i,
    {
        proof {
            let head = kfs@.take(i + 1);
            assert(head.drop_last() =~= kfs@.take(i as int));
            assert(head.last() == kfs@[i as int]);
        }
        if !holds(at, i) {
            out.push(kfs[i]);
        }
        i = i + 1;
    }
    assert(kfs@.take(i as int) =~= kfs@);
    out
}

/// The positions of the keyframes of a row among `keys`, in their order.
pub open spec fn positions_of(
    keys: Seq<KeyModel>,
    effect_index: int,
    param_id: Seq<char>,
) -> Seq<usize>
    decreases keys.len(),
{
    if keys.len() == 0 {
        Seq::empty()
    } else {
        let before = positions_of(keys.drop_last(), effect_index, param_id);
        let k = keys.last();
        if k.effect_index == effect_index && k.param_id == param_id {
            before.push(k.index as usize)
        } else {
            before
        }
    }
}

fn positions(keys: &Vec<GraphKey>, effect_index: usize, param_id: &str) -> (r: Vec<usize>)
    ensures
        r@ == positions_of(views(keys@), effect_index as int, param_id@),
{
    let mut out: Vec<usize> = Vec::new();
    let mut i: usize = 0;
    while i < keys.len()
        invariant
            i <= keys.len(),
            out@ == positions_of(views(keys@).take(i as int), effect_index as int, param_id@),
        decreases keys.len() - i,
    {
        proof {
            let head = views(keys@).take(i + 1);
            assert(head.drop_last() =~= views(keys@).take(i as int));
            assert(head.last() == keys@[i as int]@);
        }
        if keys[i].effect_index == effect_index && str_eq(&keys[i].param_id, param_id) {
            out.push(keys[i].index);
        }
        i = i + 1;
    }
    assert(views(keys@).take(i as int) =~= views(keys@));
    out
}

/// A point of the graph.
#[derive(Clone, Copy, Debug, PartialEq, Eq, Structural)]
pub struct GraphPoint {
    pub time: Rational,
    pub value: Scalar,
}

/// A choice in the menu of a row.
#[derive(Clone, Copy, Debug, PartialEq, Eq, Structural)]
pub enum MenuChoice {
    Interp(InterpKind),
    Delete,
}

/// What the pointer did over a row.
#[derive(Debug, PartialEq)]
pub struct RowInput {
    /// For each keyframe, whether the pointer hovers over it.
    pub hovers: Vec<bool>,
    /// For each keyframe, whether the pressed pointer is on it.
    pub presses: Vec<bool>,
    /// Where the pressed pointer is.
    pub point: Option<GraphPoint>,
    pub drag_started: bool,
    pub dragged: bool,
    pub drag_stopped: bool,
    pub clicked: bool,
    pub double_clicked: bool,
    pub shift: bool,
    pub menu: Option<MenuChoice>,
}

/// The last position that is hit.
pub open spec fn last_hit(hits: Seq<bool>) -> Option<usize>
    decreases hits.len(),
{
    if hits.len() == 0 {
        None
    } else if hits.last() {
        Some((hits.len() - 1) as usize)
    } else {
        last_hit(hits.drop_last())
    }
}

/// The first position at or after `from` that is hit.
pub open spec fn first_hit(hits: Seq<bool>, from: int) -> Option<usize>
    decreases hits.len() - from,
{
    if from < 0 || from >= hits.len() {
        None
    } else if hits[from] {
        Some(from as usize)
    } else {
        first_hit(hits, from + 1)
    }
}

fn topmost(hits: &Vec<bool>) -> (r: Option<usize>)
    ensures
        r == last_hit(hits@),
{
    let mut n: usize = hits.len();
    assert(hits@.take(n as int) =~= hits@);
    while n > 0
        invariant
            n <= hits.len(),
            last_hit(hits@) == last_hit(hits@.take(n as int)),
        decreases n,
    {
        assert(hits@.take(n as int).drop_last() =~= hits@.take(n - 1));
        if hits[n - 1] {
            return Some(n - 1);
        }
        n = n - 1;
    }
    None
}

fn first_of(hits: &Vec<bool>) -> (r: Option<usize>)
    ensures
        r == first_hit(hits@, 0),
{
    let mut i: usize = 0;
    while i < hits.len()
        invariant
            i <= hits.len(),
            first_hit(hits@, 0) == first_hit(hits@, i as int),
        decreases hits.len() - i,
    {
        if hits[i] {
            return Some(i);
        }
        i = i + 1;
    }
    None
}

/// The keyframe that is being dragged after the input.
pub open spec fn drag_after(dragging: Option<usize>, input: RowInput) -> Option<usize> {
    if input.drag_stopped {
        None
    } else if input.drag_started && input.point is Some && first_hit(input.presses@, 0) is Some {
        first_hit(input.presses@, 0)
    } else {
        dragging
    }
}

/// The selection after the input.
pub open spec fn selection_after(
    s: Seq<KeyModel>,
    row: RowModel,
    input: RowInput,
) -> Seq<KeyModel> {
    match last_hit(input.hovers@) {
        Some(i) => if input.clicked {
            clicked(
                s,
                KeyModel {
                    effect_index: row.effect_index,
                    param_id: row.param_id,
                    index: i as int,
                },
                input.shift,
            )
        } else {
            s
        },
        None => s,
    }
}

/// The positions that the menu of a row is for: those selected in the row,
/// else the one under the pointer.
pub open spec fn menu_positions(s: Seq<KeyModel>, row: RowModel, hovers: Seq<bool>) -> Seq<usize> {
    let own = positions_of(s, row.effect_index, row.param_id);
    if own.len() > 0 {
        own
    } else {
        match last_hit(hovers) {
            Some(i) => seq![i],
            None => own,
        }
    }
}

/// The edit that the menu asks for. Deleting is refused where no keyframe
/// would be left.
pub open spec fn menu_edit(
    row: RowModel,
    at: Seq<usize>,
    choice: Option<MenuChoice>,
) -> Seq<EffectsEdit> {
    let kfs = row_keyframes(row);
    if at.len() == 0 {
        Seq::empty()
    } else {
        match choice {
            Some(MenuChoice::Interp(kind)) => seq![row_edit(row, with_interp(kfs, at, kind))],
            Some(MenuChoice::Delete) => if kfs.len() > at.len() {
                seq![row_edit(row, without(kfs, at))]
            } else {
                Seq::empty()
            },
            None => Seq::empty(),
        }
    }
}

/// The edit that dragging makes: the dragged keyframe goes to the pointer.
pub open spec fn drag_edit(row: RowModel, dragging: Option<usize>, input: RowInput) -> Seq<
    EffectsEdit,
> {
    match (dragging, input.point) {
        (Some(index), Some(p)) => if input.dragged {
            seq![
                row_edit(
                    row,
                    after_curve_action(
                        row_keyframes(row),
                        CurveAction::Move { index, time: p.time, value: p.value },
                    ),
                ),
            ]
        } else {
            Seq::empty()
        },
        _ => Seq::empty(),
    }
}

/// The edit that a double click beside the keyframes makes: a new keyframe.
pub open spec fn add_edit(row: RowModel, input: RowInput) -> Seq<EffectsEdit> {
    match (last_hit(input.hovers@), input.point) {
        (None, Some(p)) => if input.double_clicked {
            seq![
                row_edit(
                    row,
                    after_curve_action(
                        row_keyframes(row),
                        CurveAction::AddAt { time: p.time, value: p.value },
                    ),
                ),
            ]
        } else {
            Seq::empty()
        },
        _ => Seq::empty(),
    }
}

/// The edits that the input on a row makes: dragging, the menu, a new
/// keyframe. The menu goes by the selection after the click.
pub open spec fn row_edits(
    s: Seq<KeyModel>,
    dragging: Option<usize>,
    row: RowModel,
    input: RowInput,
) -> Seq<EffectsEdit> {
    drag_edit(row, drag_after(dragging, input), input) + menu_edit(
        row,
        menu_positions(selection_after(s, row, input), row, input.hovers@),
        input.menu,
    ) + add_edit(row, input)
}

fn curve_action_on(row: &AnimatedRow, action: CurveAction) -> (r: EffectsAction)
    ensures
        r@ == row_edit(row@, after_curve_action(row_keyframes(row@), action)),
{
    EffectsAction::SetValue {
        effect_index: row.effect_index,
        id: row.param_id.clone(),
        value: ParamValue::FloatCurve(apply_curve_action(&row.curve, action)),
    }
}

/// Takes in what the pointer did over a row: updates the selection and the
/// dragged keyframe and returns the edits.
pub fn row_events(
    selection: &mut GraphSelection,
    dragging: &mut Option<usize>,
    row: &AnimatedRow,
    input: &RowInput,
) -> (r: Vec<EffectsAction>)
    ensures
        final(selection)@ == selection_after(old(selection)@, row@, *input),
        *final(dragging) == drag_after(*old(dragging), *input),
        views(r@) == row_edits(old(selection)@, *old(dragging), row@, *input),
{
    broadcast use group_views;

    let mut out: Vec<EffectsAction> = Vec::new();
    let hovered = topmost(&input.hovers);
    if input.drag_started && input.point.is_some() {
        if let Some(i) = first_of(&input.presses) {
            *dragging = Some(i);
        }
    }
    if input.drag_stopped {
        *dragging = None;
    }
    if input.clicked {
        if let Some(i) = hovered {
            selection.click(
                GraphKey {
                    effect_index: row.effect_index,
                    param_id: row.param_id.clone(),
                    index: i,
                },
                input.shift,
            );
        }
    }
    if input.dragged {
        if let (Some(index), Some(p)) = (*dragging, input.point) {
            let a = curve_action_on(
                row,
                CurveAction::Move { index, time: p.time, value: p.value },
            );
            out.push(a);
        }
    }
    assert(views(out@) =~= drag_edit(row@, *dragging, *input));
    let ghost dragged = views(out@);
    let mut at = positions(&selection.keys, row.effect_index, &row.param_id);
    if at.len() == 0 {
        if let Some(i) = hovered {
            at.push(i);
        }
    }
    assert(at@ =~= menu_positions(selection@, row@, input.hovers@));
    if at.len() > 0 {
        let kfs = keyframes_of(&row.curve, Rational::new(0, 30));
        match input.menu {
            Some(MenuChoice::Interp(kind)) => {
                let a = row_action(row, interp_set(&kfs, &at, kind));
                out.push(a);
            },
            Some(MenuChoice::Delete) => {
                if kfs.len() > at.len() {
                    let a = row_action(row, keep_others(&kfs, &at));
                    out.push(a);
                }
            },
            None => {},
        }
    }
    assert(views(out@) =~= dragged + menu_edit(row@, at@, input.menu));
    let ghost chosen = views(out@);
    if input.double_clicked && hovered.is_none() {
        if let Some(p) = input.point {
            let a = curve_action_on(row, CurveAction::AddAt { time: p.time, value: p.value });
            out.push(a);
        }
    }
    assert(views(out@) =~= chosen + add_edit(row@, *input));
    out
}

/// A choice in the menu of the small curve strip below a slider.
#[derive(Clone, Copy, Debug, PartialEq, Eq, Structural)]
pub enum StripChoice {
    Interp(InterpKind),
    Delete,
    Add,
}

/// What the pointer did over the curve strip.
#[derive(Debug, PartialEq)]
pub struct StripInput {
    /// For each keyframe, whether the pointer hovers over it.
    pub hovers: Vec<bool>,
    /// For each keyframe, whether the pressed pointer is on it.
    pub presses: Vec<bool>,
    /// Where the pressed pointer is.
    pub point: Option<GraphPoint>,
    /// Where the pointer hovers.
    pub hover_point: Option<GraphPoint>,
    pub drag_started: bool,
    pub dragged: bool,
    pub drag_stopped: bool,
    pub double_clicked: bool,
    pub menu: Option<StripChoice>,
}

/// The keyframe of the strip that is being dragged after the input.
pub open spec fn strip_drag_after(dragging: Option<usize>, input: StripInput) -> Option<usize> {
    if input.drag_stopped {
        None
    } else if input.drag_started && input.point is Some && first_hit(input.presses@, 0) is Some {
        first_hit(input.presses@, 0)
    } else {
        dragging
    }
}

/// What a choice in the strip's menu does: over a keyframe it changes or
/// deletes that one, which may not be the last; elsewhere it adds one.
pub open spec fn strip_menu(keyframes: nat, input: StripInput) -> Option<CurveAction> {
    match (last_hit(input.hovers@), input.menu) {
        (Some(index), Some(StripChoice::Interp(interp))) => Some(
            CurveAction::SetInterp { index, interp },
        ),
        (Some(index), Some(StripChoice::Delete)) => if keyframes > 1 {
            Some(CurveAction::Delete { index })
        } else {
            None
        },
        (None, Some(StripChoice::Add)) => match input.hover_point {
            Some(p) => Some(CurveAction::AddAt { time: p.time, value: p.value }),
            None => None,
        },
        _ => None,
    }
}

/// What the strip does: at most one thing at a time. A double click beside the
/// keyframes goes before the menu, and the menu before dragging.
pub open spec fn strip_action(
    keyframes: nat,
    dragging: Option<usize>,
    input: StripInput,
) -> Option<CurveAction> {
    if input.double_clicked && last_hit(input.hovers@) is None && input.point is Some {
        Some(CurveAction::AddAt { time: input.point->0.time, value: input.point->0.value })
    } else if strip_menu(keyframes, input) is Some {
        strip_menu(keyframes, input)
    } else {
        match (dragging, input.point) {
            (Some(index), Some(p)) => if input.dragged {
                Some(CurveAction::Move { index, time: p.time, value: p.value })
            } else {
                None
            },
            _ => None,
        }
    }
}

/// Takes in what the pointer did over the strip of `curve`: updates the
/// dragged keyframe and returns what is to be done. A curve without keyframes
/// has no strip.
pub fn strip_events(curve: &Curve<Scalar>, dragging: &mut Option<usize>, input: &StripInput) -> (r:
    Option<CurveAction>)
    ensures
        match curve@ {
            CurveModel::Animated(kfs) => if kfs.len() > 0 {
                *final(dragging) == strip_drag_after(*old(dragging), *input) && r == strip_action(
                    kfs.len(),
                    *final(dragging),
                    *input,
                )
            } else {
                r is None && *final(dragging) == *old(dragging)
            },
            CurveModel::Static(_) => r is None && *final(dragging) == *old(dragging),
        },
{
    let n: usize = match curve {
        Curve::Animated(kfs) => kfs.len(),
        Curve::Static(_) => 0,
    };
    if n == 0 {
        return None;
    }
    let hovered = topmost(&input.hovers);
    if input.drag_started && input.point.is_some() {
        if let Some(i) = first_of(&input.presses) {
            *dragging = Some(i);
        }
    }
    if input.drag_stopped {
        *dragging = None;
    }
    let mut action: Option<CurveAction> = None;
    if input.dragged {
        if let (Some(index), Some(p)) = (*dragging, input.point) {
            action = Some(CurveAction::Move { index, time: p.time, value: p.value });
        }
    }
    match (hovered, input.menu) {
        (Some(index), Some(StripChoice::Interp(interp))) => {
            action = Some(CurveAction::SetInterp { index, interp });
        },
        (Some(index), Some(StripChoice::Delete)) => {
            if n > 1 {
                action = Some(CurveAction::Delete { index });
            }
        },
        (None, Some(StripChoice::Add)) => {
            if let Some(p) = input.hover_point {
                action = Some(CurveAction::AddAt { time: p.time, value: p.value });
            }
        },
        _ => {},
    }
    if input.double_clicked && hovered.is_none() {
        if let Some(p) = input.point {
            action = Some(CurveAction::AddAt { time: p.time, value: p.value });
        }
    }
    action
}

/// The test for a row.
pub open spec fn is_row(effect_index: int, param_id: Seq<char>) -> spec_fn(RowModel) -> bool {
    |r: RowModel| r.effect_index == effect_index && r.param_id == param_id
}

/// What deleting leaves of `kfs`: at least the first keyframe.
pub open spec fn trimmed(kfs: Seq<Keyframe<Scalar>>, at: Seq<usize>) -> Seq<Keyframe<Scalar>> {
    let rest = without(kfs, at);
    if rest.len() == 0 {
        seq![kfs[0]]
    } else {
        rest
    }
}

/// The edit that deletes the keyframes `keys` of one parameter from its row,
/// if the row is there and animated.
pub open spec fn delete_edit(
    keys: Seq<KeyModel>,
    rows: Seq<RowModel>,
    effect_index: int,
    param_id: Seq<char>,
) -> Seq<EffectsEdit> {
    match first_where(rows, is_row(effect_index, param_id), 0) {
        Some(i) => match rows[i].curve {
            CurveModel::Animated(kfs) => seq![
                EffectsEdit::SetValue {
                    effect_index,
                    id: param_id,
                    value: ParamValueModel::FloatCurve(
                        CurveModel::Animated(
                            trimmed(kfs, positions_of(keys, effect_index, param_id)),
                        ),
                    ),
                },
            ],
            CurveModel::Static(_) => Seq::empty(),
        },
        None => Seq::empty(),
    }
}

/// The edits that delete `keys`, one for each parameter, in the order in which
/// the first `n` keys name them.
pub open spec fn delete_edits(keys: Seq<KeyModel>, rows: Seq<RowModel>, n: nat) -> Seq<EffectsEdit>
    decreases n,
{
    if n == 0 || n > keys.len() {
        Seq::empty()
    } else {
        let before = delete_edits(keys, rows, (n - 1) as nat);
        let k = keys[n - 1];
        if named_before(keys, n - 1, k) {
            before
        } else {
            before + delete_edit(keys, rows, k.effect_index, k.param_id)
        }
    }
}

/// Whether one of the first `n` keys is of the same parameter as `k`.
pub open spec fn named_before(keys: Seq<KeyModel>, n: int, k: KeyModel) -> bool {
    exists|j: int|
        0 <= j < n && (#[trigger] keys[j]).effect_index == k.effect_index && keys[j].param_id
            == k.param_id
}

/// Whether every animated row has a keyframe.
pub open spec fn rows_have_keyframes(rows: Seq<RowModel>) -> bool {
    forall|i: int|
        0 <= i < rows.len() ==> match (#[trigger] rows[i]).curve {
            CurveModel::Animated(kfs) => kfs.len() > 0,
            CurveModel::Static(_) => true,
        }
}

proof fn without_others(kfs: Seq<Keyframe<Scalar>>, at: Seq<usize>, i: int)
    requires
        0 <= i < kfs.len() <= usize::MAX,
        !at.contains(i as usize),
    ensures
        without(kfs, at).contains(kfs[i]),
    decreases kfs.len(),
{
    let before = without(kfs.drop_last(), at);
    if i == kfs.len() - 1 {
        assert(without(kfs, at)[before.len() as int] == kfs[i]);
    } else {
        without_others(kfs.drop_last(), at, i);
        assert(kfs.drop_last()[i] == kfs[i]);
        let k = choose|k: int| 0 <= k < before.len() && before[k] == kfs[i];
        assert(without(kfs, at)[k] == kfs[i]);
    }
}

proof fn without_only_these(kfs: Seq<Keyframe<Scalar>>, at: Seq<usize>, k: int)
    requires
        0 <= k < without(kfs, at).len(),
        kfs.len() <= usize::MAX,
    ensures
        exists|i: int|
            0 <= i < kfs.len() && !at.contains(i as usize) && without(kfs, at)[k] == #[trigger] kfs[i],
    decreases kfs.len(),
{
    if kfs.len() > 0 {
        let before = without(kfs.drop_last(), at);
        if k < before.len() {
            without_only_these(kfs.drop_last(), at, k);
            let i = choose|i: int|
                0 <= i < kfs.len() - 1 && !at.contains(i as usize) && before[k]
                    == #[trigger] kfs.drop_last()[i];
            assert(kfs[i] == kfs.drop_last()[i]);
        } else {
            assert(without(kfs, at)[k] == kfs[kfs.len() - 1]);
        }
    }
}

/// Deleting keeps every keyframe that was not chosen, keeps no other than the
/// first, and never leaves a curve without keyframes.
pub proof fn deleting_keeps_the_rest(kfs: Seq<Keyframe<Scalar>>, at: Seq<usize>, i: int, k: int)
    requires
        0 < kfs.len() <= usize::MAX,
        0 <= i < kfs.len(),
        0 <= k < trimmed(kfs, at).len(),
    ensures
        trimmed(kfs, at).len() > 0,
        !at.contains(i as usize) ==> trimmed(kfs, at).contains(kfs[i]),
        exists|j: int|
            0 <= j < kfs.len() && (!at.contains(j as usize) || j == 0) && trimmed(kfs, at)[k]
                == #[trigger] kfs[j],
{
    let rest = without(kfs, at);
    if !at.contains(i as usize) {
        without_others(kfs, at, i);
    }
    if rest.len() > 0 {
        without_only_these(kfs, at, k);
    } else {
        assert(trimmed(kfs, at)[k] == kfs[0]);
    }
}

fn row_position(rows: &Vec<AnimatedRow>, effect_index: usize, param_id: &str) -> (r: Option<usize>)
    ensures
        match first_where(views(rows@), is_row(effect_index as int, param_id@), 0) {
            Some(i) => r == Some(i as usize) && 0 <= i < rows.len(),
            None => r is None,
        },
{
    let ghost test = is_row(effect_index as int, param_id@);
    let mut i: usize = 0;
    while i < rows.len()
        invariant
            i <= rows.len(),
            test == is_row(effect_index as int, param_id@),
            first_where(views(rows@), test, 0) == first_where(views(rows@), test, i as int),
        decreases rows.len() - i,
    {
        assert(views(rows@)[i as int] == rows@[i as int]@);
        if rows[i].effect_index == effect_index && str_eq(&rows[i].param_id, param_id) {
            return Some(i);
        }
        i = i + 1;
    }
    None
}

fn was_named(keys: &Vec<GraphKey>, n: usize) -> (r: bool)
    requires
        n < keys.len(),
    ensures
        r == named_before(views(keys@), n as int, keys@[n as int]@),
{
    let mut j: usize = 0;
    while j < n
        invariant
            j <= n < keys.len(),
            forall|k: int|
                0 <= k < j ==> !((#[trigger] views(keys@)[k]).effect_index
                    == keys@[n as int]@.effect_index && views(keys@)[k].param_id
                    == keys@[n as int]@.param_id),
        decreases n - j,
    {
        assert(views(keys@)[j as int] == keys@[j as int]@);
        if keys[j].effect_index == keys[n].effect_index && str_eq(
            &keys[j].param_id,
            &keys[n].param_id,
        ) {
            return true;
        }
        j = j + 1;
    }
    false
}

/// Deletes the selected keyframes: one edit for each parameter. A curve keeps
/// at least its first keyframe.
pub fn bulk_delete(sel: &GraphSelection, rows: &Vec<AnimatedRow>) -> (r: Vec<EffectsAction>)
    requires
        rows_have_keyframes(views(rows@)),
    ensures
        views(r@) == delete_edits(sel@, views(rows@), sel@.len()),
{
    broadcast use group_views;

    let mut out: Vec<EffectsAction> = Vec::new();
    let mut n: usize = 0;
    while n < sel.keys.len()
        invariant
            n <= sel.keys.len(),
            rows_have_keyframes(views(rows@)),
            views(out@) == delete_edits(sel@, views(rows@), n as nat),
        decreases sel.keys.len() - n,
    {
        let key = &sel.keys[n];
        let ghost before = out@;
        assert(sel@[n as int] == key@);
        if !was_named(&sel.keys, n) {
            let ghost edit = delete_edit(
                sel@,
                views(rows@),
                key.effect_index as int,
                key.param_id@,
            );
            proof {
                first_where_is_first(
                    views(rows@),
                    is_row(key.effect_index as int, key.param_id@),
                    0,
                );
            }
            if let Some(i) = row_position(rows, key.effect_index, &key.param_id) {
                assert(views(rows@)[i as int] == rows@[i as int]@);
                if let Curve::Animated(kfs) = &rows[i].curve {
                    proof {
                        scalar_keyframes_view(kfs@);
                    }
                    let at = positions(&sel.keys, key.effect_index, &key.param_id);
                    let rest = keep_others(kfs, &at);
                    let left = if rest.len() == 0 {
                        let mut one: Vec<Keyframe<Scalar>> = Vec::new();
                        one.push(kfs[0]);
                        one
                    } else {
                        rest
                    };
                    assert(left@ =~= trimmed(kfs@, at@));
                    let a = row_action(&rows[i], left);
                    out.push(a);
                    proof {
                        views_push(before, a);
                        assert(views(before).push(a@) =~= views(before) + edit);
                    }
                } else {
                    assert(views(before) + edit =~= views(before));
                }
            } else {
                assert(views(before) + edit =~= views(before));
            }
        }
        n = n + 1;
    }
    out
}

/// The interpolation that a number key stands for.
pub open spec fn interp_of_key(key: u32) -> Option<InterpKind> {
    if key == 1 {
        Some(InterpKind::Hold)
    } else if key == 2 {
        Some(InterpKind::Linear)
    } else if key == 3 {
        Some(InterpKind::EaseIn)
    } else if key == 4 {
        Some(InterpKind::EaseOut)
    } else if key == 5 {
        Some(InterpKind::EaseInOut)
    } else {
        None
    }
}

/// The interpolation that a number key stands for.
pub fn interp_for_key(key: u32) -> (r: Option<InterpKind>)
    ensures
        r == interp_of_key(key),
{
    match key {
        1 => Some(InterpKind::Hold),
        2 => Some(InterpKind::Linear),
        3 => Some(InterpKind::EaseIn),
        4 => Some(InterpKind::EaseOut),
        5 => Some(InterpKind::EaseInOut),
        _ => None,
    }
}

/// The edit that gives the keyframes `keys` of one parameter another
/// interpolation, if its row is there.
pub open spec fn interp_edit(
    keys: Seq<KeyModel>,
    rows: Seq<RowModel>,
    effect_index: int,
    param_id: Seq<char>,
    interp: InterpKind,
) -> Seq<EffectsEdit> {
    match first_where(rows, is_row(effect_index, param_id), 0) {
        Some(i) => seq![
            row_edit(
                rows[i],
                with_interp(
                    row_keyframes(rows[i]),
                    positions_of(keys, effect_index, param_id),
                    interp,
                ),
            ),
        ],
        None => Seq::empty(),
    }
}

/// The edits that give `keys` another interpolation, one for each parameter,
/// in the order in which the first `n` keys name them.
pub open spec fn interp_edits(
    keys: Seq<KeyModel>,
    rows: Seq<RowModel>,
    interp: InterpKind,
    n: nat,
) -> Seq<EffectsEdit>
    decreases n,
{
    if n == 0 || n > keys.len() {
        Seq::empty()
    } else {
        let before = interp_edits(keys, rows, interp, (n - 1) as nat);
        let k = keys[n - 1];
        if named_before(keys, n - 1, k) {
            before
        } else {
            before + interp_edit(keys, rows, k.effect_index, k.param_id, interp)
        }
    }
}

/// Gives the selected keyframes another interpolation: one edit for each
/// parameter.
pub fn set_selected_interp(
    sel: &GraphSelection,
    rows: &Vec<AnimatedRow>,
    interp: InterpKind,
) -> (r: Vec<EffectsAction>)
    ensures
        views(r@) == interp_edits(sel@, views(rows@), interp, sel@.len()),
{
    broadcast use group_views;

    let mut out: Vec<EffectsAction> = Vec::new();
    let mut n: usize = 0;
    while n < sel.keys.len()
        invariant
            n <= sel.keys.len(),
            views(out@) == interp_edits(sel@, views(rows@), interp, n as nat),
        decreases sel.keys.len() - n,
    {
        let key = &sel.keys[n];
        let ghost before = out@;
        assert(sel@[n as int] == key@);
        if !was_named(&sel.keys, n) {
            let ghost edit = interp_edit(
                sel@,
                views(rows@),
                key.effect_index as int,
                key.param_id@,
                interp,
            );
            if let Some(i) = row_position(rows, key.effect_index, &key.param_id) {
                assert(views(rows@)[i as int] == rows@[i as int]@);
                let at = positions(&sel.keys, key.effect_index, &key.param_id);
                let kfs = keyframes_of(&rows[i].curve, Rational::new(0, 30));
                let a = row_action(&rows[i], interp_set(&kfs, &at, interp));
                out.push(a);
                proof {
                    views_push(before, a);
                    assert(views(before).push(a@) =~= views(before) + edit);
                }
            } else {
                assert(views(before) + edit =~= views(before));
            }
        }
        n = n + 1;
    }
    out
}

/// Deletes the selected keyframes and selects none.
pub fn delete_selected(sel: &mut GraphSelection, rows: &Vec<AnimatedRow>) -> (r: Vec<EffectsAction>)
    requires
        rows_have_keyframes(views(rows@)),
    ensures
        views(r@) == delete_edits(old(sel)@, views(rows@), old(sel)@.len()),
        final(sel)@ == Seq::<KeyModel>::empty(),
{
    broadcast use group_views;

    let out = bulk_delete(sel, rows);
    sel.keys = Vec::new();
    out
}

/// Whether `row` shows the curve that is stored for its parameter.
pub open spec fn shows_stored_curve(
    row: RowModel,
    effect_index: int,
    effect_label: Seq<char>,
    values: Map<Seq<char>, ParamValueModel>,
) -> bool {
    &&& row.effect_index == effect_index
    &&& row.effect_label == effect_label
    &&& stored(values, row.param_id) == Some(ParamValueModel::FloatCurve(row.curve))
}

/// Every row of an effect shows a curve that is stored for a parameter of it.
pub proof fn rows_show_stored_curves(
    params: Seq<ParamDecl>,
    prefix: Seq<char>,
    effect_index: int,
    effect_label: Seq<char>,
    values: Map<Seq<char>, ParamValueModel>,
    k: int,
)
    requires
        0 <= k < param_rows(params, prefix, effect_index, effect_label, values).len(),
    ensures
        shows_stored_curve(
            param_rows(params, prefix, effect_index, effect_label, values)[k],
            effect_index,
            effect_label,
            values,
        ),
    decreases params,
{
    let n = params.len() - 1;
    let before = param_rows(params.subrange(0, n), prefix, effect_index, effect_label, values);
    let id = dotted(prefix, params[n].id@);
    if k < before.len() {
        rows_show_stored_curves(
            params.subrange(0, n),
            prefix,
            effect_index,
            effect_label,
            values,
            k,
        );
    } else {
        match params[n].kind {
            ParamKind::Group { parameters } => {
                rows_show_stored_curves(
                    parameters@,
                    id,
                    effect_index,
                    effect_label,
                    values,
                    k - before.len(),
                );
            },
            ParamKind::OptionalGroup { parameters, .. } => {
                rows_show_stored_curves(
                    parameters@,
                    id,
                    effect_index,
                    effect_label,
                    values,
                    k - before.len(),
                );
            },
            _ => {},
        }
    }
}

/// A number with a stored curve has a row, with its name and its range. A
/// number without one has none.
pub proof fn animated_number_has_a_row(
    params: Seq<ParamDecl>,
    prefix: Seq<char>,
    effect_index: int,
    effect_label: Seq<char>,
    values: Map<Seq<char>, ParamValueModel>,
    i: int,
)
    requires
        0 <= i < params.len(),
        params[i].kind is Float,
    ensures
        ({
            let id = dotted(prefix, params[i].id@);
            stored(values, id) matches Some(ParamValueModel::FloatCurve(curve)) ==> param_rows(
                params,
                prefix,
                effect_index,
                effect_label,
                values,
            ).contains(
                (RowModel {
                    effect_index,
                    effect_label,
                    param_id: id,
                    param_label: params[i].display_name@,
                    min: params[i].kind->Float_range.min,
                    max: params[i].kind->Float_range.max,
                    curve,
                }),
            )
        }),
        params.len() == 1 && !(stored(values, dotted(prefix, params[i].id@)) matches Some(
            ParamValueModel::FloatCurve(_),
        )) ==> param_rows(params, prefix, effect_index, effect_label, values).len() == 0,
    decreases params.len(),
{
    let n = params.len() - 1;
    let id = dotted(prefix, params[i].id@);
    let rows = param_rows(params, prefix, effect_index, effect_label, values);
    let init = params.subrange(0, n);
    let before = param_rows(init, prefix, effect_index, effect_label, values);
    assert(before.is_prefix_of(rows));
    if let Some(ParamValueModel::FloatCurve(curve)) = stored(values, id) {
        let row = RowModel {
            effect_index,
            effect_label,
            param_id: id,
            param_label: params[i].display_name@,
            min: params[i].kind->Float_range.min,
            max: params[i].kind->Float_range.max,
            curve,
        };
        if i == n {
            assert(rows.last() == row);
        } else {
            assert(init[i] == params[i]);
            animated_number_has_a_row(init, prefix, effect_index, effect_label, values, i);
            let k = choose|k: int| 0 <= k < before.len() && before[k] == row;
            assert(rows[k] == row);
        }
    }
    if params.len() == 1 {
        assert(init =~= Seq::<ParamDecl>::empty());
    }
}

/// The rows of parameters that come one after the other come in that order.
/// The rows of a group are those of its parameters, under its name; a group
/// that can be turned off has rows only while it is on.
pub proof fn group_rows_are_nested(
    params: Seq<ParamDecl>,
    prefix: Seq<char>,
    effect_index: int,
    effect_label: Seq<char>,
    values: Map<Seq<char>, ParamValueModel>,
)
    requires
        params.len() == 1,
    ensures
        ({
            let id = dotted(prefix, params[0].id@);
            let rows = param_rows(params, prefix, effect_index, effect_label, values);
            match params[0].kind {
                ParamKind::Group { parameters } => rows == param_rows(
                    parameters@,
                    id,
                    effect_index,
                    effect_label,
                    values,
                ),
                ParamKind::OptionalGroup { parameters, .. } => if stored(values, id) == Some(
                    ParamValueModel::GroupEnabled(true),
                ) {
                    rows == param_rows(parameters@, id, effect_index, effect_label, values)
                } else {
                    rows.len() == 0
                },
                ParamKind::Float { .. } => rows.len() <= 1,
                _ => rows.len() == 0,
            }
        }),
{
    let init = params.subrange(0, 0);
    assert(init =~= Seq::<ParamDecl>::empty());
    assert(param_rows(init, prefix, effect_index, effect_label, values) =~= Seq::empty());
    let rows = param_rows(params, prefix, effect_index, effect_label, values);
    let id = dotted(prefix, params[0].id@);
    match params[0].kind {
        ParamKind::Group { parameters } => {
            assert(rows =~= param_rows(parameters@, id, effect_index, effect_label, values));
        },
        ParamKind::OptionalGroup { parameters, .. } => {
            if stored(values, id) == Some(ParamValueModel::GroupEnabled(true)) {
                assert(rows =~= param_rows(parameters@, id, effect_index, effect_label, values));
            }
        },
        _ => {},
    }
}

/// Every row belongs to an effect of the layer, is labelled with its id and
/// shows a curve that the effect stores.
pub proof fn rows_belong_to_effects(
    effects: Seq<EffectModel>,
    manifests: Seq<EffectManifest>,
    k: int,
)
    requires
        0 <= k < effect_rows(effects, manifests).len(),
    ensures
        ({
            let row = effect_rows(effects, manifests)[k];
            let n = row.effect_index;
            &&& 0 <= n < effects.len()
            &&& shows_stored_curve(row, n, effects[n].id, effects[n].values)
        }),
    decreases effects.len(),
{
    let n = effects.len() - 1;
    let before = effect_rows(effects.drop_last(), manifests);
    if k < before.len() {
        rows_belong_to_effects(effects.drop_last(), manifests, k);
    } else {
        let m = manifest_index(manifests, effects[n].id, 0).unwrap();
        rows_show_stored_curves(
            manifests[m].parameters@,
            Seq::empty(),
            n,
            effects[n].id,
            effects[n].values,
            k - before.len(),
        );
    }
}

/// The edit of a row stores the new curve under the row's parameter, and
/// changes no other value of any effect.
pub proof fn row_edit_stores_the_curve(
    effects: Seq<EffectModel>,
    row: RowModel,
    kfs: Seq<Keyframe<Scalar>>,
    j: int,
    other: Seq<char>,
)
    requires
        0 <= row.effect_index < effects.len(),
        0 <= j < effects.len(),
        j != row.effect_index || other != row.param_id,
    ensures
        ({
            let after = edited(effects, row_edit(row, kfs));
            &&& stored(after[row.effect_index].values, row.param_id) == Some(
                ParamValueModel::FloatCurve(CurveModel::Animated(kfs)),
            )
            &&& stored(after[j].values, other) == stored(effects[j].values, other)
            &&& after.len() == effects.len()
        }),
{
    set_value_is_read_back(
        effects,
        row.effect_index,
        row.param_id,
        ParamValueModel::FloatCurve(CurveModel::Animated(kfs)),
        j,
        other,
    );
}

/// Choosing an interpolation sets it on the keyframes named, and changes
/// neither times nor values nor the other keyframes.
pub proof fn interpolation_is_set_where_named(
    kfs: Seq<Keyframe<Scalar>>,
    at: Seq<usize>,
    interp: InterpKind,
    i: int,
)
    requires
        0 <= i < kfs.len(),
    ensures
        ({
            let after = with_interp(kfs, at, interp);
            &&& after.len() == kfs.len()
            &&& after[i].t == kfs[i].t
            &&& after[i].v == kfs[i].v
            &&& at.contains(i as usize) ==> after[i].interp == interp
            &&& !at.contains(i as usize) ==> after[i] == kfs[i]
        }),
{
}

/// Deleting no keyframe changes nothing, and deleting one takes that one out.
pub proof fn keyframes_are_taken_out(kfs: Seq<Keyframe<Scalar>>, i: usize)
    requires
        kfs.len() <= usize::MAX,
        i < kfs.len(),
    ensures
        without(kfs, Seq::empty()) == kfs,
        without(kfs, seq![i]) == kfs.take(i as int) + kfs.skip(i + 1),
    decreases kfs.len(),
{
    let init = kfs.drop_last();
    nothing_is_taken_out(kfs, Seq::empty());
    assert(seq![i].contains(i)) by {
        assert(seq![i][0] == i);
    }
    if i == kfs.len() - 1 {
        nothing_is_taken_out(init, seq![i]);
        assert(kfs.take(i as int) + kfs.skip(i + 1) =~= init);
    } else {
        keyframes_are_taken_out(init, i);
        assert(kfs.take(i as int) + kfs.skip(i + 1) =~= (init.take(i as int) + init.skip(
            i + 1,
        )).push(kfs.last()));
    }
}

proof fn nothing_is_taken_out(kfs: Seq<Keyframe<Scalar>>, at: Seq<usize>)
    requires
        kfs.len() <= usize::MAX,
        forall|k: int| 0 <= k < at.len() ==> #[trigger] at[k] >= kfs.len(),
    ensures
        without(kfs, at) == kfs,
    decreases kfs.len(),
{
    if kfs.len() > 0 {
        nothing_is_taken_out(kfs.drop_last(), at);
        assert(kfs.drop_last().push(kfs.last()) =~= kfs);
    }
}

/// The positions of a row are those of the selected keyframes of that row.
pub proof fn positions_are_those_of_the_row(
    keys: Seq<KeyModel>,
    effect_index: int,
    param_id: Seq<char>,
    i: usize,
)
    requires
        forall|j: int| 0 <= j < keys.len() ==> 0 <= (#[trigger] keys[j]).index <= usize::MAX,
    ensures
        positions_of(keys, effect_index, param_id).contains(i) <==> keys.contains(
            (KeyModel { effect_index, param_id, index: i as int }),
        ),
    decreases keys.len(),
{
    let key = KeyModel { effect_index, param_id, index: i as int };
    let all = positions_of(keys, effect_index, param_id);
    if keys.len() > 0 {
        let init = keys.drop_last();
        let before = positions_of(init, effect_index, param_id);
        positions_are_those_of_the_row(init, effect_index, param_id, i);
        if all.contains(i) {
            let k = choose|k: int| 0 <= k < all.len() && all[k] == i;
            if k < before.len() {
                assert(before[k] == i);
                let j = choose|j: int| 0 <= j < init.len() && init[j] == key;
                assert(keys[j] == key);
            } else {
                assert(keys[keys.len() - 1] == key);
            }
        }
        if keys.contains(key) {
            let j = choose|j: int| 0 <= j < keys.len() && keys[j] == key;
            if j < init.len() {
                assert(init[j] == key);
                let k = choose|k: int| 0 <= k < before.len() && before[k] == i;
                assert(all[k] == i);
            } else {
                assert(all[all.len() - 1] == i);
            }
        }
    }
}

/// Of the keyframes that the pointer is over, the last counts for hovering.
pub proof fn last_hit_is_last(hits: Seq<bool>)
    requires
        hits.len() <= usize::MAX,
    ensures
        match last_hit(hits) {
            Some(i) => i < hits.len() && hits[i as int] && forall|j: int|
                i < j < hits.len() ==> !#[trigger] hits[j],
            None => forall|j: int| 0 <= j < hits.len() ==> !#[trigger] hits[j],
        },
    decreases hits.len(),
{
    if hits.len() > 0 && !hits.last() {
        last_hit_is_last(hits.drop_last());
        assert forall|j: int| 0 <= j < hits.len() - 1 implies hits.drop_last()[j]
            == #[trigger] hits[j] by {}
    }
}

/// Of the keyframes that the pressed pointer is on, the first is dragged.
pub proof fn first_hit_is_first(hits: Seq<bool>, from: int)
    requires
        hits.len() <= usize::MAX,
        0 <= from <= hits.len(),
    ensures
        match first_hit(hits, from) {
            Some(i) => from <= i < hits.len() && hits[i as int] && forall|j: int|
                from <= j < i ==> !#[trigger] hits[j],
            None => forall|j: int| from <= j < hits.len() ==> !#[trigger] hits[j],
        },
    decreases hits.len() - from,
{
    if from < hits.len() && !hits[from] {
        first_hit_is_first(hits, from + 1);
    }
}

/// A drag begins on a pressed keyframe, lasts until it is stopped, and moves
/// no other keyframe meanwhile.
pub proof fn drag_lasts_until_it_stops(dragging: Option<usize>, input: RowInput, strip: StripInput)
    ensures
        input.drag_stopped ==> drag_after(dragging, input) is None,
        !input.drag_stopped && !input.drag_started ==> drag_after(dragging, input) == dragging,
        !input.drag_stopped && input.drag_started && input.point is Some ==> match first_hit(
            input.presses@,
            0,
        ) {
            Some(i) => drag_after(dragging, input) == Some(i),
            None => drag_after(dragging, input) == dragging,
        },
        strip.drag_stopped ==> strip_drag_after(dragging, strip) is None,
        !strip.drag_stopped && !strip.drag_started ==> strip_drag_after(dragging, strip)
            == dragging,
        !strip.drag_stopped && strip.drag_started && strip.point is Some ==> match first_hit(
            strip.presses@,
            0,
        ) {
            Some(i) => strip_drag_after(dragging, strip) == Some(i),
            None => strip_drag_after(dragging, strip) == dragging,
        },
{
}

/// A click changes the selection only over a keyframe: without shift that
/// keyframe becomes the selection.
pub proof fn click_selects_the_keyframe(s: Seq<KeyModel>, row: RowModel, input: RowInput)
    ensures
        !input.clicked || last_hit(input.hovers@) is None ==> selection_after(s, row, input) == s,
        input.clicked && !input.shift ==> (last_hit(input.hovers@) matches Some(i)
            ==> selection_after(s, row, input) == seq![
            KeyModel { effect_index: row.effect_index, param_id: row.param_id, index: i as int },
        ]),
{
}

/// What the pointer does over a row is an edit of that row's parameter.
pub proof fn edits_are_of_the_row(
    s: Seq<KeyModel>,
    dragging: Option<usize>,
    row: RowModel,
    input: RowInput,
    k: int,
)
    requires
        0 <= k < row_edits(s, dragging, row, input).len(),
    ensures
        row_edits(s, dragging, row, input).len() <= 3,
        row_edits(s, dragging, row, input)[k] matches EffectsEdit::SetValue {
            effect_index,
            id,
            value,
        } && effect_index == row.effect_index && id == row.param_id && value is FloatCurve,
{
    let a = drag_edit(row, drag_after(dragging, input), input);
    let b = menu_edit(
        row,
        menu_positions(selection_after(s, row, input), row, input.hovers@),
        input.menu,
    );
    let e = row_edits(s, dragging, row, input)[k];
    if k < a.len() {
        assert(e == a[k]);
    } else if k < a.len() + b.len() {
        assert(e == b[k - a.len()]);
    } else {
        assert(e == add_edit(row, input)[k - a.len() - b.len()]);
    }
}

/// A drag moves its keyframe to the pointer. A double click beside the
/// keyframes adds one at the pointer, and one on a keyframe adds none.
pub proof fn pointer_moves_and_adds(row: RowModel, dragging: Option<usize>, input: RowInput)
    ensures
        drag_edit(row, dragging, input).len() == 1 <==> dragging is Some && input.point is Some
            && input.dragged,
        add_edit(row, input).len() == 1 <==> input.double_clicked && input.point is Some
            && last_hit(input.hovers@) is None,
        drag_edit(row, dragging, input).len() == 1 ==> drag_edit(row, dragging, input)[0]
            == row_edit(
            row,
            after_curve_action(
                row_keyframes(row),
                CurveAction::Move {
                    index: dragging->0,
                    time: input.point->0.time,
                    value: input.point->0.value,
                },
            ),
        ),
        add_edit(row, input).len() == 1 ==> add_edit(row, input)[0] == row_edit(
            row,
            after_curve_action(
                row_keyframes(row),
                CurveAction::AddAt { time: input.point->0.time, value: input.point->0.value },
            ),
        ),
{
}

/// The menu of a row acts on the selected keyframes of the row, or on the one
/// under the pointer if none is selected. It never deletes all of them.
pub proof fn menu_acts_on_the_selection(
    s: Seq<KeyModel>,
    row: RowModel,
    hovers: Seq<bool>,
    at: Seq<usize>,
    interp: InterpKind,
)
    ensures
        positions_of(s, row.effect_index, row.param_id).len() > 0 ==> menu_positions(
            s,
            row,
            hovers,
        ) == positions_of(s, row.effect_index, row.param_id),
        positions_of(s, row.effect_index, row.param_id).len() == 0 ==> menu_positions(
            s,
            row,
            hovers,
        ) == match last_hit(hovers) {
            Some(i) => seq![i],
            None => Seq::empty(),
        },
        menu_edit(row, at, None).len() == 0,
        menu_edit(row, Seq::empty(), Some(MenuChoice::Delete)).len() == 0,
        menu_edit(row, Seq::empty(), Some(MenuChoice::Interp(interp))).len() == 0,
        at.len() > 0 ==> menu_edit(row, at, Some(MenuChoice::Interp(interp))) == seq![
            row_edit(row, with_interp(row_keyframes(row), at, interp)),
        ],
        at.len() > 0 && at.len() < row_keyframes(row).len() ==> menu_edit(
            row,
            at,
            Some(MenuChoice::Delete),
        ) == seq![row_edit(row, without(row_keyframes(row), at))],
        at.len() >= row_keyframes(row).len() ==> menu_edit(
            row,
            at,
            Some(MenuChoice::Delete),
        ).len() == 0,
{
    if positions_of(s, row.effect_index, row.param_id).len() == 0 {
        assert(positions_of(s, row.effect_index, row.param_id) =~= Seq::empty());
    }
}

/// What happens on the strip: a double click beside the keyframes adds one
/// there; else the menu acts on the keyframe under the pointer; else a drag
/// moves its keyframe to the pointer.
pub proof fn strip_acts_on_the_pointer(
    keyframes: nat,
    dragging: Option<usize>,
    input: StripInput,
)
    ensures
        match strip_action(keyframes, dragging, input) {
            Some(CurveAction::AddAt { time, value }) => {
                &&& last_hit(input.hovers@) is None
                &&& input.double_clicked || input.menu == Some(StripChoice::Add)
                &&& input.point == Some(GraphPoint { time, value }) || input.hover_point == Some(
                    GraphPoint { time, value },
                )
            },
            Some(CurveAction::Delete { index }) => {
                &&& last_hit(input.hovers@) == Some(index)
                &&& input.menu == Some(StripChoice::Delete)
                &&& keyframes > 1
            },
            Some(CurveAction::SetInterp { index, interp }) => {
                &&& last_hit(input.hovers@) == Some(index)
                &&& input.menu == Some(StripChoice::Interp(interp))
            },
            Some(CurveAction::Move { index, time, value }) => {
                &&& dragging == Some(index)
                &&& input.dragged
                &&& input.point == Some(GraphPoint { time, value })
            },
            None => !(input.dragged && dragging is Some && input.point is Some),
        },
        input.double_clicked && last_hit(input.hovers@) is None && input.point is Some
            ==> (strip_action(keyframes, dragging, input) matches Some(CurveAction::AddAt { .. })),
        last_hit(input.hovers@) is Some && input.menu == Some(StripChoice::Delete) && keyframes > 1
            ==> (strip_action(keyframes, dragging, input) matches Some(CurveAction::Delete { .. })),
        last_hit(input.hovers@) is Some && (input.menu matches Some(StripChoice::Interp(_)))
            ==> (strip_action(keyframes, dragging, input) matches Some(CurveAction::SetInterp { .. })),
{
}

/// The key for an interpolation.
pub open spec fn key_of_interp(interp: InterpKind) -> u32 {
    match interp {
        InterpKind::Hold => 1,
        InterpKind::Linear => 2,
        InterpKind::EaseIn => 3,
        InterpKind::EaseOut => 4,
        InterpKind::EaseInOut => 5,
    }
}

/// Each interpolation has a key, and each of these keys an interpolation.
pub proof fn interpolations_have_keys(interp: InterpKind, key: u32)
    ensures
        interp_of_key(key_of_interp(interp)) == Some(interp),
        1 <= key <= 5 <==> interp_of_key(key) is Some,
        interp_of_key(key) matches Some(kind) ==> key_of_interp(kind) == key,
{
}

/// Whether `e` is an edit of the row that `k` is on.
pub open spec fn is_for_key(e: EffectsEdit, k: KeyModel) -> bool {
    e matches EffectsEdit::SetValue { effect_index, id, .. } && effect_index == k.effect_index
        && id == k.param_id
}

/// Deleting, and choosing an interpolation, edit rows of selected keyframes
/// only.
pub proof fn only_selected_rows_are_edited(
    keys: Seq<KeyModel>,
    rows: Seq<RowModel>,
    interp: InterpKind,
    n: nat,
    i: int,
)
    requires
        n <= keys.len(),
    ensures
        0 <= i < delete_edits(keys, rows, n).len() ==> exists|j: int|
            0 <= j < n && is_for_key(delete_edits(keys, rows, n)[i], #[trigger] keys[j]),
        0 <= i < interp_edits(keys, rows, interp, n).len() ==> exists|j: int|
            0 <= j < n && is_for_key(interp_edits(keys, rows, interp, n)[i], #[trigger] keys[j]),
    decreases n,
{
    if n > 0 {
        let m = (n - 1) as nat;
        only_selected_rows_are_edited(keys, rows, interp, m, i);
        let k = keys[n - 1];
        first_where_is_first(rows, is_row(k.effect_index, k.param_id), 0);
        let before = delete_edits(keys, rows, m);
        if 0 <= i < before.len() {
            assert(delete_edits(keys, rows, n)[i] == before[i]);
        } else if before.len() <= i < delete_edits(keys, rows, n).len() {
            assert(is_for_key(delete_edits(keys, rows, n)[i], keys[n - 1]));
        }
        let earlier = interp_edits(keys, rows, interp, m);
        if 0 <= i < earlier.len() {
            assert(interp_edits(keys, rows, interp, n)[i] == earlier[i]);
        } else if earlier.len() <= i < interp_edits(keys, rows, interp, n).len() {
            assert(is_for_key(interp_edits(keys, rows, interp, n)[i], keys[n - 1]));
        }
    }
}

/// Every row with a selected keyframe is edited: its selected keyframes go, or
/// get the interpolation.
pub proof fn selected_rows_are_edited(
    keys: Seq<KeyModel>,
    rows: Seq<RowModel>,
    interp: InterpKind,
    n: nat,
    j: int,
    i: int,
)
    requires
        0 <= j < n <= keys.len(),
        first_where(rows, is_row(keys[j].effect_index, keys[j].param_id), 0) == Some(i),
    ensures
        interp_edits(keys, rows, interp, n).contains(
            row_edit(
                rows[i],
                with_interp(
                    row_keyframes(rows[i]),
                    positions_of(keys, keys[j].effect_index, keys[j].param_id),
                    interp,
                ),
            ),
        ),
        rows[i].curve matches CurveModel::Animated(kfs) ==> delete_edits(keys, rows, n).contains(
            row_edit(
                rows[i],
                trimmed(kfs, positions_of(keys, keys[j].effect_index, keys[j].param_id)),
            ),
        ),
    decreases n,
{
    let m = (n - 1) as nat;
    let k = keys[n - 1];
    let a = interp_edits(keys, rows, interp, n);
    let d = delete_edits(keys, rows, n);
    let (before, earlier) = (delete_edits(keys, rows, m), interp_edits(keys, rows, interp, m));
    first_where_is_first(rows, is_row(keys[j].effect_index, keys[j].param_id), 0);
    if j < n - 1 || named_before(keys, n - 1, k) {
        let w = if j < n - 1 {
            j
        } else {
            choose|w: int|
                0 <= w < n - 1 && (#[trigger] keys[w]).effect_index == k.effect_index
                    && keys[w].param_id == k.param_id
        };
        selected_rows_are_edited(keys, rows, interp, m, w, i);
        assert forall|e: EffectsEdit| earlier.contains(e) implies #[trigger] a.contains(e) by {
            let at = choose|at: int| 0 <= at < earlier.len() && earlier[at] == e;
            assert(a[at] == e);
        }
        assert forall|e: EffectsEdit| before.contains(e) implies #[trigger] d.contains(e) by {
            let at = choose|at: int| 0 <= at < before.len() && before[at] == e;
            assert(d[at] == e);
        }
    } else {
        assert(a[a.len() - 1] == interp_edit(keys, rows, k.effect_index, k.param_id, interp)[0]);
        if rows[i].curve is Animated {
            assert(d[d.len() - 1] == delete_edit(keys, rows, k.effect_index, k.param_id)[0]);
        }
    }
}

/// A row with a constant shows one keyframe, at the start, with that value; a
/// row with keyframes shows those.
pub proof fn constant_shows_one_keyframe(row: RowModel)
    ensures
        match row.curve {
            CurveModel::Static(v) => {
                &&& row_keyframes(row).len() == 1
                &&& row_keyframes(row)[0].v == v
                &&& row_keyframes(row)[0].t.num == 0
                &&& row_keyframes(row)[0].t.den > 0
                &&& row_keyframes(row)[0].interp == InterpKind::Linear
            },
            CurveModel::Animated(kfs) => row_keyframes(row) == kfs,
        },
{
}

} // verus!
