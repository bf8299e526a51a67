//! The effects panel: the controls that a manifest asks for, and what the
//! panel's edits do to a layer's effects.

use crate::model::composition::{swap_items, swapped};
use crate::model::curve::{
    last_at_or_before_bounds, scalar_keyframes_view, Curve, CurveModel, CurveSample, InterpKind,
    Keyframe,
};
use crate::model::effect::{manifest_effect, new_effect, Effect, EffectModel};
use crate::model::time::Rational;
use crate::params::manifest::{
    dotted, dotted_path, EffectManifest, EnumVariant, ParamDecl, ParamKind,
};
use crate::params::values::{
    default_values, float_sample, stored, ParamValue, ParamValueModel, ParamValues,
};
use crate::scalar::{Point, Rgba, Scalar};
use crate::seqs::{group_views, views};
use crate::studio::curve_edit::{curve_keyframes, linear, set_keyframe_at, with_value_at};
use crate::studio::registry::{manifest_index, ManifestRegistry};
use crate::text::{cat, str_eq};
use vstd::prelude::*;

verus! {

/// Edits of the effects of a layer.
#[derive(Debug, PartialEq)]
#[allow(inconsistent_fields)]
pub enum EffectsAction {
    /// Replace the parameter `id` of the effect with `value`.
    SetValue { effect_index: usize, id: String, value: ParamValue },
    /// Switch the effect on or off.
    ToggleEnabled { effect_index: usize, enabled: bool },
    /// Append a new effect, with the defaults of its manifest.
    AddEffect { effect_id: String },
    /// Remove the effect.
    RemoveEffect { effect_index: usize },
    /// Move the effect earlier in the chain.
    MoveUp { effect_index: usize },
    /// Move the effect later in the chain.
    MoveDown { effect_index: usize },
}

/// What an edit holds.
pub enum EffectsEdit {
    SetValue { effect_index: int, id: Seq<char>, value: ParamValueModel },
    ToggleEnabled { effect_index: int, enabled: bool },
    AddEffect { effect_id: Seq<char> },
    RemoveEffect { effect_index: int },
    MoveUp { effect_index: int },
    MoveDown { effect_index: int },
}

impl View for EffectsAction {
    type V = EffectsEdit;

    open spec fn view(&self) -> EffectsEdit {
        match self {
            EffectsAction::SetValue { effect_index, id, value } => EffectsEdit::SetValue {
                effect_index: *effect_index as int,
                id: id@,
                value: value@,
            },
            EffectsAction::ToggleEnabled { effect_index, enabled } => EffectsEdit::ToggleEnabled {
                effect_index: *effect_index as int,
                enabled: *enabled,
            },
            EffectsAction::AddEffect { effect_id } => EffectsEdit::AddEffect {
                effect_id: effect_id@,
            },
            EffectsAction::RemoveEffect { effect_index } => EffectsEdit::RemoveEffect {
                effect_index: *effect_index as int,
            },
            EffectsAction::MoveUp { effect_index } => EffectsEdit::MoveUp {
                effect_index: *effect_index as int,
            },
            EffectsAction::MoveDown { effect_index } => EffectsEdit::MoveDown {
                effect_index: *effect_index as int,
            },
        }
    }
}

/// A new effect: with the defaults of its manifest if there is one, else
/// without values.
pub open spec fn fresh_effect(manifests: Seq<EffectManifest>, id: Seq<char>) -> EffectModel {
    match manifest_index(manifests, id, 0) {
        Some(i) => manifest_effect(manifests[i]),
        None => new_effect(id),
    }
}

/// A new effect: with the defaults of its manifest if there is one, else
/// without values.
pub fn make_effect(manifests: &ManifestRegistry, id: &str) -> (r: Effect)
    ensures
        r@ == fresh_effect(manifests@, id@),
{
    match manifests.get(id) {
        Some(m) => Effect::from_manifest(m),
        None => Effect::new(id.to_owned()),
    }
}

/// The effects after every addition among `edits`.
pub open spec fn with_additions(
    effects: Seq<EffectModel>,
    edits: Seq<EffectsEdit>,
    manifests: Seq<EffectManifest>,
) -> Seq<EffectModel>
    decreases edits.len(),
{
    if edits.len() == 0 {
        effects
    } else {
        let before = with_additions(effects, edits.drop_last(), manifests);
        match edits.last() {
            EffectsEdit::AddEffect { effect_id } => before.push(fresh_effect(manifests, effect_id)),
            _ => before,
        }
    }
}

/// The effects after one edit that is no addition. An index that no effect
/// has changes nothing.
pub open spec fn edited(effects: Seq<EffectModel>, edit: EffectsEdit) -> Seq<EffectModel> {
    match edit {
        EffectsEdit::SetValue { effect_index, id, value } => if 0 <= effect_index < effects.len() {
            effects.update(
                effect_index,
                EffectModel {
                    values: effects[effect_index].values.insert(id, value),
                    ..effects[effect_index]
                },
            )
        } else {
            effects
        },
        EffectsEdit::ToggleEnabled { effect_index, enabled } => if 0 <= effect_index
            < effects.len() {
            effects.update(effect_index, EffectModel { enabled, ..effects[effect_index] })
        } else {
            effects
        },
        EffectsEdit::AddEffect { .. } => effects,
        EffectsEdit::RemoveEffect { effect_index } => if 0 <= effect_index < effects.len() {
            effects.remove(effect_index)
        } else {
            effects
        },
        EffectsEdit::MoveUp { effect_index } => if 0 < effect_index < effects.len() {
            swapped(effects, effect_index - 1, effect_index)
        } else {
            effects
        },
        EffectsEdit::MoveDown { effect_index } => if 0 <= effect_index && effect_index + 1
            < effects.len() {
            swapped(effects, effect_index, effect_index + 1)
        } else {
            effects
        },
    }
}

/// The effects after every edit that is no addition, in order.
pub open spec fn with_edits(effects: Seq<EffectModel>, edits: Seq<EffectsEdit>) -> Seq<EffectModel>
    decreases edits.len(),
{
    if edits.len() == 0 {
        effects
    } else {
        edited(with_edits(effects, edits.drop_last()), edits.last())
    }
}

/// The effects after `edits`: additions come first, then the other edits in
/// order.
pub open spec fn effects_after(
    effects: Seq<EffectModel>,
    edits: Seq<EffectsEdit>,
    manifests: Seq<EffectManifest>,
) -> Seq<EffectModel> {
    with_edits(with_additions(effects, edits, manifests), edits)
}

/// Moving an effect up and the one before it, where it now stands, down again
/// changes nothing.
pub proof fn effect_up_then_down(effects: Seq<EffectModel>, i: int)
    requires
        0 < i < effects.len(),
    ensures
        edited(
            edited(effects, EffectsEdit::MoveUp { effect_index: i }),
            EffectsEdit::MoveDown { effect_index: i - 1 },
        ) == effects,
{
    let up = edited(effects, EffectsEdit::MoveUp { effect_index: i });
    assert(edited(up, EffectsEdit::MoveDown { effect_index: i - 1 }) =~= effects);
}

/// A value that was set is what the effect then holds, and every other
/// parameter and effect keeps its values.
pub proof fn set_value_is_read_back(
    effects: Seq<EffectModel>,
    i: int,
    id: Seq<char>,
    value: ParamValueModel,
    j: int,
    other: Seq<char>,
)
    requires
        0 <= i < effects.len(),
        0 <= j < effects.len(),
        j != i || other != id,
    ensures
        ({
            let after = edited(effects, EffectsEdit::SetValue { effect_index: i, id, value });
            &&& stored(after[i].values, id) == Some(value)
            &&& stored(after[j].values, other) == stored(effects[j].values, other)
        }),
{
}

fn apply_edit(effects: &mut Vec<Effect>, action: &EffectsAction)
    ensures
        views(final(effects)@) == edited(views(old(effects)@), action@),
{
    broadcast use group_views;

    let ghost before = effects@;
    match action {
        EffectsAction::SetValue { effect_index, id, value } => {
            if *effect_index < effects.len() {
                let mut e = effects.remove(*effect_index);
                e.values.set(id.clone(), value.duplicate());
                effects.insert(*effect_index, e);
                assert(effects@ =~= before.update(*effect_index as int, e));
            }
        },
        EffectsAction::ToggleEnabled { effect_index, enabled } => {
            if *effect_index < effects.len() {
                let mut e = effects.remove(*effect_index);
                e.enabled = *enabled;
                effects.insert(*effect_index, e);
                assert(effects@ =~= before.update(*effect_index as int, e));
            }
        },
        EffectsAction::AddEffect { .. } => {},
        EffectsAction::RemoveEffect { effect_index } => {
            if *effect_index < effects.len() {
                effects.remove(*effect_index);
            }
        },
        EffectsAction::MoveUp { effect_index } => {
            let i: usize = *effect_index;
            if i > 0 && i < effects.len() {
                swap_items(effects, i - 1, i);
            }
        },
        EffectsAction::MoveDown { effect_index } => {
            let i: usize = *effect_index;
            if i < effects.len() && i + 1 < effects.len() {
                swap_items(effects, i, i + 1);
            }
        },
    }
}

/// Applies edits to the effects of a layer: additions first, then the others
/// in order.
pub fn apply_to_effects(
    effects: &mut Vec<Effect>,
    actions: &Vec<EffectsAction>,
    manifests: &ManifestRegistry,
)
    ensures
        views(final(effects)@) == effects_after(views(old(effects)@), views(actions@), manifests@),
{
    broadcast use group_views;

    let ghost edits = views(actions@);
    let ghost start = views(effects@);
    let mut i: usize = 0;
    assert(edits.take(0) =~= Seq::<EffectsEdit>::empty());
    while i < actions.len()
        invariant
            i <= actions.len(),
            edits == views(actions@),
            views(effects@) == with_additions(start, edits.take(i as int), manifests@),
        decreases actions.len() - i,
    {
        proof {
            assert(edits.take(i + 1).drop_last() =~= edits.take(i as int));
            assert(edits.take(i + 1).last() == actions@[i as int]@);
        }
        if let EffectsAction::AddEffect { effect_id } = &actions[i] {
            let e = make_effect(manifests, effect_id);
            let ghost before = effects@;
            effects.push(e);
            proof {
                crate::seqs::views_push(before, e);
            }
        }
        i = i + 1;
    }
    assert(edits.take(i as int) =~= edits);
    let ghost added = views(effects@);
    let mut j: usize = 0;
    while j < actions.len()
        invariant
            j <= actions.len(),
            edits == views(actions@),
            views(effects@) == with_edits(added, edits.take(j as int)),
        decreases actions.len() - j,
    {
        proof {
            assert(edits.take(j + 1).drop_last() =~= edits.take(j as int));
            assert(edits.take(j + 1).last() == actions@[j as int]@);
        }
        apply_edit(effects, &actions[j]);
        j = j + 1;
    }
    assert(edits.take(j as int) =~= edits);
}

/// One control of the panel.
#[derive(Debug, PartialEq)]
pub struct Control {
    /// Dotted id of the parameter.
    pub id: String,
    pub label: String,
    pub kind: ControlKind,
}

#[derive(Debug, PartialEq)]
#[allow(inconsistent_fields)]
pub enum ControlKind {
    /// A slider with a stopwatch; `animated` tells whether the parameter has a
    /// curve, `current` what decides its value at the playhead.
    Float { animated: bool, current: CurveSample, min: Scalar, max: Scalar },
    Int { current: i32, min: i32, max: i32 },
    Bool { current: bool },
    Color { current: Rgba },
    Vec2 { current: Point },
    /// A list of variants of which `current` is chosen and shown as `shown`.
    Enum { current: String, shown: String },
    Group { children: Vec<Control> },
    /// Controls that are there only while the group is on.
    OptionalGroup { enabled: bool, children: Vec<Control> },
}

/// The display name of the first variant called `id`, or `id` itself.
pub open spec fn variant_label(variants: Seq<EnumVariant>, id: Seq<char>, from: int) -> Seq<char>
    decreases variants.len() - from,
{
    if from < 0 || from >= variants.len() {
        id
    } else if variants[from].id@ == id {
        variants[from].display_name@
    } else {
        variant_label(variants, id, from + 1)
    }
}

/// Whether `cs` are the controls for `params` under `prefix`, in declaration
/// order, each with the stored value or else the declared default.
pub open spec fn controls_show(
    cs: Seq<Control>,
    params: Seq<ParamDecl>,
    prefix: Seq<char>,
    values: Map<Seq<char>, ParamValueModel>,
    time: Rational,
) -> bool
    decreases params,
{
    &&& cs.len() == params.len()
    &&& forall|i: int|
        0 <= i < params.len() ==> {
            let c = #[trigger] cs[i];
            let id = dotted(prefix, params[i].id@);
            let held = stored(values, id);
            &&& c.id@ == id
            &&& c.label@ == params[i].display_name@
            &&& match params[i].kind {
                ParamKind::Float { default, range } => c.kind == (ControlKind::Float {
                    animated: held matches Some(ParamValueModel::FloatCurve(_)),
                    current: match held {
                        Some(v) => match float_sample(v, time) {
                            Some(s) => s,
                            None => CurveSample::Exact(default),
                        },
                        None => CurveSample::Exact(default),
                    },
                    min: range.min,
                    max: range.max,
                }),
                ParamKind::Int { default, range } => c.kind == (ControlKind::Int {
                    current: match held {
                        Some(ParamValueModel::Int(v)) => v,
                        _ => default,
                    },
                    min: range.min,
                    max: range.max,
                }),
                ParamKind::Bool { default } => c.kind == (ControlKind::Bool {
                    current: match held {
                        Some(ParamValueModel::Bool(v)) => v,
                        _ => default,
                    },
                }),
                ParamKind::Color { default } => c.kind == (ControlKind::Color {
                    current: match held {
                        Some(ParamValueModel::Color(v)) => v,
                        _ => default,
                    },
                }),
                ParamKind::Vec2 { default } => c.kind == (ControlKind::Vec2 {
                    current: match held {
                        Some(ParamValueModel::Vec2(v)) => v,
                        _ => default,
                    },
                }),
                ParamKind::Enum { variants, default } => {
                    let chosen = match held {
                        Some(ParamValueModel::Enum(v)) => v,
                        _ => default@,
                    };
                    c.kind matches ControlKind::Enum { current, shown } && current@ == chosen
                        && shown@ == variant_label(variants@, chosen, 0)
                },
                ParamKind::Group {
                    parameters,
                } => c.kind matches ControlKind::Group { children } && controls_show(
                    children@,
                    parameters@,
                    id,
                    values,
                    time,
                ),
                ParamKind::OptionalGroup { default_enabled, parameters } => {
                    let on = match held {
                        Some(ParamValueModel::GroupEnabled(v)) => v,
                        _ => default_enabled,
                    };
                    c.kind matches ControlKind::OptionalGroup { enabled, children } && enabled == on
                        && (if on {
                        controls_show(children@, parameters@, id, values, time)
                    } else {
                        children@.len() == 0
                    })
                },
            }
        }
}

fn label_of(variants: &Vec<EnumVariant>, id: &str) -> (r: String)
    ensures
        r@ == variant_label(variants@, id@, 0),
{
    let mut i: usize = 0;
    while i < variants.len()
        invariant
            i <= variants.len(),
            variant_label(variants@, id@, 0) == variant_label(variants@, id@, i as int),
        decreases variants.len() - i,
    {
        if str_eq(&variants[i].id, id) {
            return variants[i].display_name.clone();
        }
        i = i + 1;
    }
    id.to_owned()
}

/// The controls for `params` under `prefix` at the playhead time.
pub fn controls(
    params: &Vec<ParamDecl>,
    prefix: &str,
    values: &ParamValues,
    time: Rational,
) -> (r: Vec<Control>)
    ensures
        controls_show(r@, params@, prefix@, values@, time),
    decreases params@,
{
    let mut out: Vec<Control> = Vec::new();
    let mut n: usize = 0;
    while n < params.len()
        invariant
            n <= params.len(),
            controls_show(out@, params@.take(n as int), prefix@, values@, time),
        decreases params.len() - n,
    {
        let p = &params[n];
        let ghost before = out@;
        let id = dotted_path(prefix, &p.id);
        let kind = match &p.kind {
            ParamKind::Float { default, range } => {
                let current = match values.float_at(&id, time) {
                    Some(s) => s,
                    None => CurveSample::Exact(*default),
                };
                ControlKind::Float {
                    animated: values.float_curve(&id).is_some(),
                    current,
                    min: range.min,
                    max: range.max,
                }
            },
            ParamKind::Int { default, range } => {
                let current: i32 = match values.integer(&id) {
                    Some(v) => v,
                    None => *default,
                };
                ControlKind::Int { current, min: range.min, max: range.max }
            },
            ParamKind::Bool { default } => ControlKind::Bool {
                current: match values.bool(&id) {
                    Some(v) => v,
                    None => *default,
                },
            },
            ParamKind::Color { default } => ControlKind::Color {
                current: match values.color(&id) {
                    Some(v) => v,
                    None => *default,
                },
            },
            ParamKind::Vec2 { default } => ControlKind::Vec2 {
                current: match values.vec2(&id) {
                    Some(v) => v,
                    None => *default,
                },
            },
            ParamKind::Enum { variants, default } => {
                let current = match values.enum_str(&id) {
                    Some(v) => v.to_owned(),
                    None => default.clone(),
                };
                let shown = label_of(variants, &current);
                ControlKind::Enum { current, shown }
            },
            ParamKind::Group { parameters } => ControlKind::Group {
                children: controls(parameters, &id, values, time),
            },
            ParamKind::OptionalGroup { default_enabled, parameters } => {
                let enabled: bool = match values.group_enabled(&id) {
                    Some(v) => v,
                    None => *default_enabled,
                };
                let children = if enabled {
                    controls(parameters, &id, values, time)
                } else {
                    Vec::new()
                };
                ControlKind::OptionalGroup { enabled, children }
            },
        };
        out.push(Control { id, label: p.display_name.clone(), kind });
        n = n + 1;
        proof {
            let head = params@.take(n as int);
            assert forall|i: int| 0 <= i < n - 1 implies out@[i] == before[i] && head[i]
                == params@.take(n - 1)[i] by {}
            assert(head[n - 1] == params@[n - 1]);
            assert(controls_show(out@, head, prefix@, values@, time));
        }
    }
    assert(params@.take(n as int) =~= params@);
    out
}

/// The value after a click on the stopwatch of a number that stands at
/// `current`: an animated one becomes a constant, a constant one gets a single
/// keyframe at the playhead.
pub fn stopwatch_value(animated: bool, current: Scalar, time: Rational) -> (r: ParamValue)
    ensures
        r@ == if animated {
            ParamValueModel::Float(current)
        } else {
            ParamValueModel::FloatCurve(CurveModel::Animated(seq![linear(time, current)]))
        },
        r@ == after_stopwatch(animated, current, time),
{
    broadcast use scalar_keyframes_view;

    if animated {
        ParamValue::Float(current)
    } else {
        let mut kfs: Vec<Keyframe<Scalar>> = Vec::new();
        kfs.push(Keyframe { t: time, v: current, interp: InterpKind::Linear });
        assert(kfs@ =~= seq![linear(time, current)]);
        ParamValue::FloatCurve(Curve::Animated(kfs))
    }
}

/// The value after the slider of a number was moved to `v`: an animated number
/// gets the value at the playhead, another one becomes `v`.
pub fn slider_value(curve: Option<&Curve<Scalar>>, time: Rational, v: Scalar) -> (r: ParamValue)
    ensures
        r@ == match curve {
            Some(c) => ParamValueModel::FloatCurve(
                CurveModel::Animated(with_value_at(curve_keyframes(c@, time), time, v)),
            ),
            None => ParamValueModel::Float(v),
        },
{
    match curve {
        Some(c) => ParamValue::FloatCurve(set_keyframe_at(c, time, v)),
        None => ParamValue::Float(v),
    }
}

/// The value after a click on the variant `id` of a list on which `current` is
/// chosen; a click on the chosen one changes nothing.
pub fn chosen_value(current: &str, id: &str) -> (r: Option<ParamValue>)
    ensures
        match r {
            Some(v) => id@ != current@ && v@ == ParamValueModel::Enum(id@),
            None => id@ == current@,
        },
{
    if str_eq(current, id) {
        None
    } else {
        Some(ParamValue::Enum(id.to_owned()))
    }
}

/// The heading of an effect: the name that its manifest gives, else its id.
pub fn effect_heading(manifests: &ManifestRegistry, id: &str) -> (r: String)
    ensures
        r@ == match manifest_index(manifests@, id@, 0) {
            Some(i) => manifests@[i].display_name@,
            None => id@,
        },
{
    match manifests.get(id) {
        Some(m) => m.display_name.clone(),
        None => id.to_owned(),
    }
}

/// What stands in place of the controls of an effect without a manifest.
pub fn no_manifest_text(id: &str) -> (r: String)
    ensures
        r@ == "(no manifest registered for '"@ + id@ + "')"@,
{
    let head = cat("(no manifest registered for '", id);
    cat(&head, "')")
}

/// Turning an effect on or off changes that switch only.
pub proof fn toggled_effect_keeps_the_rest(effects: Seq<EffectModel>, i: int, enabled: bool, j: int)
    requires
        0 <= i < effects.len(),
        0 <= j < effects.len(),
        j != i,
    ensures
        ({
            let after = edited(effects, EffectsEdit::ToggleEnabled { effect_index: i, enabled });
            &&& after.len() == effects.len()
            &&& after[i].enabled == enabled
            &&& EffectModel { enabled: effects[i].enabled, ..after[i] } == effects[i]
            &&& after[j] == effects[j]
        }),
{
}

/// Removing takes one effect out and keeps the others in order. Moving changes
/// places with a neighbour.
pub proof fn effects_are_removed_and_moved(effects: Seq<EffectModel>, i: int)
    requires
        0 <= i < effects.len(),
    ensures
        edited(effects, EffectsEdit::RemoveEffect { effect_index: i }) == effects.take(i)
            + effects.skip(i + 1),
        i > 0 ==> edited(effects, EffectsEdit::MoveUp { effect_index: i })[i - 1] == effects[i],
        i > 0 ==> edited(effects, EffectsEdit::MoveUp { effect_index: i })[i] == effects[i - 1],
        i + 1 < effects.len() ==> edited(effects, EffectsEdit::MoveDown { effect_index: i })[i + 1]
            == effects[i],
        i + 1 < effects.len() ==> edited(effects, EffectsEdit::MoveDown { effect_index: i })[i]
            == effects[i + 1],
{
    assert(effects.remove(i) =~= effects.take(i) + effects.skip(i + 1));
}

/// Edits are done one after the other.
pub proof fn edits_follow_each_other(
    effects: Seq<EffectModel>,
    a: Seq<EffectsEdit>,
    b: Seq<EffectsEdit>,
)
    ensures
        with_edits(effects, a + b) == with_edits(with_edits(effects, a), b),
    decreases b.len(),
{
    if b.len() == 0 {
        assert(a + b =~= a);
    } else {
        assert((a + b).drop_last() =~= a + b.drop_last());
        edits_follow_each_other(effects, a, b.drop_last());
    }
}

/// Adding keeps the effects that there are, in front of the new ones.
pub proof fn additions_come_behind(
    effects: Seq<EffectModel>,
    edits: Seq<EffectsEdit>,
    manifests: Seq<EffectManifest>,
)
    ensures
        effects.is_prefix_of(with_additions(effects, edits, manifests)),
        with_additions(effects, edits, manifests).len() == effects.len() + edits.filter(
            |e: EffectsEdit| e is AddEffect,
        ).len(),
    decreases edits.len(),
{
    let adds = |e: EffectsEdit| e is AddEffect;
    reveal(Seq::filter);
    if edits.len() == 0 {
        assert(effects =~= effects.take(effects.len() as int));
    } else {
        additions_come_behind(effects, edits.drop_last(), manifests);
        let before = with_additions(effects, edits.drop_last(), manifests);
        let after = with_additions(effects, edits, manifests);
        assert(after.take(before.len() as int) =~= before);
        assert(after.take(effects.len() as int) =~= before.take(effects.len() as int));
        assert(effects =~= before.take(effects.len() as int));
    }
}

/// An effect that is added has the id that was asked for and is on. Of an
/// effect with a manifest the values are the manifest's defaults.
pub proof fn fresh_effect_is_as_asked(manifests: Seq<EffectManifest>, id: Seq<char>)
    ensures
        fresh_effect(manifests, id).id == id,
        fresh_effect(manifests, id).enabled,
        manifest_index(manifests, id, 0) matches Some(i) ==> fresh_effect(manifests, id).values
            == default_values(manifests[i].parameters@),
        manifest_index(manifests, id, 0) is None ==> fresh_effect(manifests, id).values.dom()
            == Set::<Seq<char>>::empty(),
{
    index_has_the_id(manifests, id, 0);
}

proof fn index_has_the_id(manifests: Seq<EffectManifest>, id: Seq<char>, from: int)
    ensures
        manifest_index(manifests, id, from) matches Some(i) ==> 0 <= i < manifests.len()
            && manifests[i].id@ == id,
    decreases manifests.len() - from,
{
    if 0 <= from < manifests.len() && manifests[from].id@ != id {
        index_has_the_id(manifests, id, from + 1);
    }
}

/// A control stands for the parameter at its place, under the parameter's
/// name, and a number that is stored for it is shown in place of the default.
pub proof fn controls_show_what_is_stored(
    cs: Seq<Control>,
    params: Seq<ParamDecl>,
    prefix: Seq<char>,
    values: Map<Seq<char>, ParamValueModel>,
    time: Rational,
    i: int,
)
    requires
        controls_show(cs, params, prefix, values, time),
        0 <= i < params.len(),
    ensures
        cs.len() == params.len(),
        cs[i].id@ == dotted(prefix, params[i].id@),
        cs[i].label@ == params[i].display_name@,
        params[i].kind is Int <==> cs[i].kind is Int,
        params[i].kind is Bool <==> cs[i].kind is Bool,
        params[i].kind is Float <==> cs[i].kind is Float,
        params[i].kind is Int ==> match stored(values, cs[i].id@) {
            Some(ParamValueModel::Int(v)) => cs[i].kind->Int_current == v,
            _ => cs[i].kind->Int_current == params[i].kind->Int_default,
        },
        params[i].kind is Bool ==> match stored(values, cs[i].id@) {
            Some(ParamValueModel::Bool(v)) => cs[i].kind->Bool_current == v,
            _ => cs[i].kind->Bool_current == params[i].kind->Bool_default,
        },
        params[i].kind is Int ==> cs[i].kind->Int_min == params[i].kind->Int_range.min
            && cs[i].kind->Int_max == params[i].kind->Int_range.max,
        params[i].kind is Float ==> cs[i].kind->Float_min == params[i].kind->Float_range.min
            && cs[i].kind->Float_max == params[i].kind->Float_range.max,
        params[i].kind is Float ==> (cs[i].kind->Float_animated <==> (stored(
            values,
            cs[i].id@,
        ) matches Some(ParamValueModel::FloatCurve(_)))),
        params[i].kind is Float && stored(values, cs[i].id@) is None ==> cs[i].kind->Float_current
            == CurveSample::Exact(params[i].kind->Float_default),
{
    let c = cs[i];
    assert(c == cs[i]);
}

/// A choice is shown by the name of the first variant with its id, or by the
/// id itself if there is no such variant.
pub proof fn choice_is_shown_by_name(variants: Seq<EnumVariant>, id: Seq<char>, from: int, i: int)
    requires
        0 <= from,
    ensures
        from <= i < variants.len() && variants[i].id@ == id && (forall|j: int|
            from <= j < i ==> (#[trigger] variants[j]).id@ != id) ==> variant_label(
            variants,
            id,
            from,
        ) == variants[i].display_name@,
        (forall|j: int| from <= j < variants.len() ==> (#[trigger] variants[j]).id@ != id)
            ==> variant_label(variants, id, from) == id,
    decreases variants.len() - from,
{
    if from < variants.len() && variants[from].id@ != id {
        choice_is_shown_by_name(variants, id, from + 1, i);
    }
}

/// The value after a click on a stopwatch.
pub open spec fn after_stopwatch(
    animated: bool,
    current: Scalar,
    time: Rational,
) -> ParamValueModel {
    if animated {
        ParamValueModel::Float(current)
    } else {
        ParamValueModel::FloatCurve(CurveModel::Animated(seq![linear(time, current)]))
    }
}

/// A click on the stopwatch does not change the number at any time: it stays
/// at the value that it has at the playhead, as a constant or as a curve.
pub proof fn stopwatch_keeps_the_number(
    animated: bool,
    current: Scalar,
    time: Rational,
    other: Rational,
)
    ensures
        float_sample(after_stopwatch(animated, current, time), other) == Some(
            CurveSample::Exact(current),
        ),
        after_stopwatch(animated, current, time) is FloatCurve <==> !animated,
        after_stopwatch(false, current, time) matches ParamValueModel::FloatCurve(
            CurveModel::Animated(k),
        ) && k.len() == 1 && k[0].t == time && k[0].interp == InterpKind::Linear,
{
    let kfs = seq![linear(time, current)];
    last_at_or_before_bounds(kfs, other);
}

/// The first effect cannot go up nor the last one down, and an edit of an
/// effect that is not there changes nothing.
pub proof fn edits_out_of_range_change_nothing(
    effects: Seq<EffectModel>,
    i: int,
    id: Seq<char>,
    value: ParamValueModel,
    enabled: bool,
)
    ensures
        edited(effects, EffectsEdit::MoveUp { effect_index: 0 }) == effects,
        edited(effects, EffectsEdit::MoveDown { effect_index: effects.len() - 1 }) == effects,
        edited(effects, EffectsEdit::AddEffect { effect_id: id }) == effects,
        !(0 <= i < effects.len()) ==> {
            &&& edited(effects, EffectsEdit::SetValue { effect_index: i, id, value }) == effects
            &&& edited(effects, EffectsEdit::ToggleEnabled { effect_index: i, enabled }) == effects
            &&& edited(effects, EffectsEdit::RemoveEffect { effect_index: i }) == effects
            &&& edited(effects, EffectsEdit::MoveUp { effect_index: i }) == effects
            &&& edited(effects, EffectsEdit::MoveDown { effect_index: i }) == effects
        },
{
}

} // verus!
