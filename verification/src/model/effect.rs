//! Effects on a layer: an identifier that matches a manifest, an enabled flag
//! and the parameter values.

use crate::params::manifest::EffectManifest;
use crate::params::values::{default_values, ParamValueModel, ParamValues};
use vstd::prelude::*;

verus! {

#[derive(Debug, PartialEq)]
pub struct Effect {
    pub id: String,
    pub enabled: bool,
    pub values: ParamValues,
}

/// What an effect holds.
#[verifier::ext_equal]
pub struct EffectModel {
    pub id: Seq<char>,
    pub enabled: bool,
    pub values: Map<Seq<char>, ParamValueModel>,
}

impl View for Effect {
    type V = EffectModel;

    open spec fn view(&self) -> EffectModel {
        EffectModel { id: self.id@, enabled: self.enabled, values: self.values@ }
    }
}

/// An enabled effect without values.
pub open spec fn new_effect(id: Seq<char>) -> EffectModel {
    EffectModel { id, enabled: true, values: Map::empty() }
}

/// An enabled effect with the defaults that its manifest declares.
pub open spec fn manifest_effect(m: EffectManifest) -> EffectModel {
    EffectModel { id: m.id@, enabled: true, values: default_values(m.parameters@) }
}

impl Effect {
    pub fn new(id: String) -> (r: Self)
        ensures
            r@ == new_effect(id@),
    {
        Effect { id, enabled: true, values: ParamValues::new() }
    }

    /// An effect with the declared defaults of `manifest`.
    pub fn from_manifest(manifest: &EffectManifest) -> (r: Self)
        ensures
            r@ == manifest_effect(*manifest),
    {
        Effect {
            id: manifest.id.clone(),
            enabled: true,
            values: ParamValues::from_manifest(manifest),
        }
    }
}

/// A new effect is on and has no values yet; one made from a manifest has the
/// manifest's id and its defaults.
pub proof fn new_effects_are_on(id: Seq<char>, m: EffectManifest)
    ensures
        new_effect(id).id == id,
        new_effect(id).enabled,
        new_effect(id).values.dom() == Set::<Seq<char>>::empty(),
        manifest_effect(m).id == m.id@,
        manifest_effect(m).enabled,
        manifest_effect(m).values == default_values(m.parameters@),
        m.parameters@.len() == 0 ==> manifest_effect(m) == new_effect(m.id@),
{
}

} // verus!
