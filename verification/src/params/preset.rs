//! Effect presets: saved chains of effects with parameter values, applied to
//! a layer in one step.

use crate::params::values::{ParamValue, ParamValueModel, ParamValues};
use crate::text::cat;
use vstd::prelude::*;

verus! {

#[derive(Debug, PartialEq)]
pub struct EffectPreset {
    pub name: String,
    pub description: String,
    pub effects: Vec<PresetEffect>,
}

#[derive(Debug, PartialEq)]
pub struct PresetEffect {
    pub id: String,
    pub values: ParamValues,
}

/// What one effect of a preset holds.
pub struct PresetEffectModel {
    pub id: Seq<char>,
    pub values: Map<Seq<char>, ParamValueModel>,
}

impl View for PresetEffect {
    type V = PresetEffectModel;

    open spec fn view(&self) -> PresetEffectModel {
        PresetEffectModel { id: self.id@, values: self.values@ }
    }
}

/// Why a preset could not be read. The texts are those of the failing reader
/// or parser.
#[derive(Clone, Debug, PartialEq, Eq)]
pub enum PresetError {
    Io(String),
    Parse(String),
}

/// The text of an error.
pub open spec fn preset_error_text(e: PresetError) -> Seq<char> {
    match e {
        PresetError::Io(t) => "io: "@ + t@,
        PresetError::Parse(t) => "parse: "@ + t@,
    }
}

impl PresetError {
    pub fn message(&self) -> (r: String)
        ensures
            r@ == preset_error_text(*self),
    {
        match self {
            PresetError::Io(t) => cat("io: ", t),
            PresetError::Parse(t) => cat("parse: ", t),
        }
    }
}

/// The values of `pairs`; a later pair replaces an earlier one of the same id.
pub open spec fn collected(pairs: Seq<(&str, ParamValue)>) -> Map<Seq<char>, ParamValueModel>
    decreases pairs.len(),
{
    if pairs.len() == 0 {
        Map::empty()
    } else {
        collected(pairs.drop_last()).insert(pairs.last().0@, pairs.last().1@)
    }
}

/// Builds one effect of a preset from its id and values.
pub fn preset_effect(id: String, values: &[(&str, ParamValue)]) -> (r: PresetEffect)
    ensures
        r@ == (PresetEffectModel { id: id@, values: collected(values@) }),
{
    let mut out = ParamValues::new();
    let mut i: usize = 0;
    while i < values.len()
        invariant
            i <= values.len(),
            out@ == collected(values@.take(i as int)),
        decreases values.len() - i,
    {
        let key = values[i].0.to_owned();
        out.set(key, values[i].1.duplicate());
        i = i + 1;
        assert(values@.take(i as int).drop_last() =~= values@.take(i - 1));
    }
    assert(values@.take(i as int) =~= values@);
    PresetEffect { id, values: out }
}

/// Of values that a preset names twice the later counts; the others stay.
pub proof fn later_values_count(pairs: Seq<(&str, ParamValue)>, id: Seq<char>)
    requires
        pairs.len() > 0,
    ensures
        collected(pairs).contains_key(pairs.last().0@),
        collected(pairs)[pairs.last().0@] == pairs.last().1@,
        id != pairs.last().0@ ==> collected(pairs).contains_key(id) == collected(
            pairs.drop_last(),
        ).contains_key(id),
        id != pairs.last().0@ && collected(pairs).contains_key(id) ==> collected(pairs)[id]
            == collected(pairs.drop_last())[id],
{
}

/// A preset has the values that it names and no others.
pub proof fn preset_has_the_named_values(pairs: Seq<(&str, ParamValue)>, id: Seq<char>)
    ensures
        collected(pairs).contains_key(id) <==> exists|i: int|
            0 <= i < pairs.len() && (#[trigger] pairs[i]).0@ == id,
    decreases pairs.len(),
{
    if pairs.len() > 0 {
        let init = pairs.drop_last();
        preset_has_the_named_values(init, id);
        if exists|i: int| 0 <= i < init.len() && (#[trigger] init[i]).0@ == id {
            let i = choose|i: int| 0 <= i < init.len() && (#[trigger] init[i]).0@ == id;
            assert(pairs[i].0@ == id);
        }
        if exists|i: int| 0 <= i < pairs.len() && (#[trigger] pairs[i]).0@ == id {
            let i = choose|i: int| 0 <= i < pairs.len() && (#[trigger] pairs[i]).0@ == id;
            if i < init.len() {
                assert(init[i].0@ == id);
            }
        }
        if pairs.last().0@ == id {
            assert(pairs[pairs.len() - 1].0@ == id);
        }
    }
}

} // verus!
