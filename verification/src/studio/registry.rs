//! The effects and presets that the program knows.

use crate::params::manifest::EffectManifest;
use crate::params::preset::EffectPreset;
use crate::paths::{join, join_path};
use crate::text::{cat, str_eq};
use vstd::prelude::*;

verus! {

/// Effects shipped with the program, in catalogue order.
pub open spec fn builtin_effect_ids() -> Seq<Seq<char>> {
    seq![
        "gain"@,
        "invert"@,
        "cc_toner"@,
        "signal"@,
        "squint_diffusion"@,
        "crt"@,
        "vhs"@,
        "crt_persistence"@,
    ]
}

/// Effects shipped with the program, in catalogue order.
pub fn builtin_effects() -> (r: [&'static str; 8])
    ensures
        r@.map_values(|s: &'static str| s@) == builtin_effect_ids(),
{
    let r = [
        "gain",
        "invert",
        "cc_toner",
        "signal",
        "squint_diffusion",
        "crt",
        "vhs",
        "crt_persistence",
    ];
    assert(r@.map_values(|s: &'static str| s@) =~= builtin_effect_ids());
    r
}

/// Effects with a page in the help menu.
pub fn documented_effects() -> (r: [&'static str; 9])
    ensures
        r@.map_values(|s: &'static str| s@) == builtin_effect_ids().push("bloom"@),
{
    let r = [
        "gain",
        "invert",
        "cc_toner",
        "signal",
        "squint_diffusion",
        "crt",
        "vhs",
        "crt_persistence",
        "bloom",
    ];
    assert(r@.map_values(|s: &'static str| s@) =~= builtin_effect_ids().push("bloom"@));
    r
}

/// Presets shipped with the program.
pub fn builtin_presets() -> (r: [&'static str; 4])
    ensures
        r@.map_values(|s: &'static str| s@) == seq![
            "crt_consumer_trinitron"@,
            "crt_arcade"@,
            "crt_pc_monitor"@,
            "vhs_on_crt"@,
        ],
{
    let r = ["crt_consumer_trinitron", "crt_arcade", "crt_pc_monitor", "vhs_on_crt"];
    assert(r@.map_values(|s: &'static str| s@) =~= seq![
        "crt_consumer_trinitron"@,
        "crt_arcade"@,
        "crt_pc_monitor"@,
        "vhs_on_crt"@,
    ]);
    r
}

/// Where the manifest of effect `id` stands under `root`.
pub fn manifest_path(root: &str, id: &str) -> (r: String)
    ensures
        r@ == join(join(root@, id@), "manifest.ron"@),
{
    let d = join_path(root, id);
    join_path(&d, "manifest.ron")
}

/// Where the help page of effect `id` stands under `root`.
pub fn help_path(root: &str, id: &str) -> (r: String)
    ensures
        r@ == join(join(root@, id@), "README.md"@),
{
    let d = join_path(root, id);
    join_path(&d, "README.md")
}

/// Where preset `slug` stands under `root`.
pub fn preset_path(root: &str, slug: &str) -> (r: String)
    ensures
        r@ == join(root@, slug@ + ".ron"@),
{
    let name = cat(slug, ".ron");
    join_path(root, &name)
}

/// The position in `s`, from `from` on, of the manifest of effect `id`.
pub open spec fn manifest_index(s: Seq<EffectManifest>, id: Seq<char>, from: int) -> Option<int>
    decreases s.len() - from,
{
    if from < 0 || from >= s.len() {
        None
    } else if s[from].id@ == id {
        Some(from)
    } else {
        manifest_index(s, id, from + 1)
    }
}

/// `s` with `m` in it, in place of a manifest of the same effect.
pub open spec fn with_manifest(s: Seq<EffectManifest>, m: EffectManifest) -> Seq<EffectManifest> {
    match manifest_index(s, m.id@, 0) {
        Some(i) => s.update(i, m),
        None => s.push(m),
    }
}

proof fn manifest_index_is_first(s: Seq<EffectManifest>, id: Seq<char>, from: int)
    requires
        0 <= from <= s.len(),
    ensures
        match manifest_index(s, id, from) {
            Some(i) => from <= i < s.len() && s[i].id@ == id && forall|k: int|
                from <= k < i ==> (#[trigger] s[k]).id@ != id,
            None => forall|k: int| from <= k < s.len() ==> (#[trigger] s[k]).id@ != id,
        },
    decreases s.len() - from,
{
    if from < s.len() && s[from].id@ != id {
        manifest_index_is_first(s, id, from + 1);
    }
}

/// A manifest that was put in is found under its id, and manifests of other
/// effects are found as before.
pub proof fn inserted_manifest_is_found(s: Seq<EffectManifest>, m: EffectManifest, other: Seq<char>)
    requires
        other != m.id@,
    ensures
        manifest_index(with_manifest(s, m), m.id@, 0) matches Some(i) && with_manifest(s, m)[i]
            == m,
        match manifest_index(s, other, 0) {
            Some(i) => manifest_index(with_manifest(s, m), other, 0) == Some(i)
                && with_manifest(s, m)[i] == s[i],
            None => manifest_index(with_manifest(s, m), other, 0) is None,
        },
{
    let t = with_manifest(s, m);
    manifest_index_is_first(s, m.id@, 0);
    manifest_index_is_first(t, m.id@, 0);
    manifest_index_is_first(s, other, 0);
    manifest_index_is_first(t, other, 0);
    match manifest_index(s, m.id@, 0) {
        Some(i) => {
            assert(t[i] == m);
            assert forall|k: int| 0 <= k < t.len() && k != i implies t[k] == s[k] by {}
        },
        None => {
            assert(t[s.len() as int] == m);
            assert forall|k: int| 0 <= k < s.len() implies t[k] == s[k] by {}
        },
    }
    if let Some(i) = manifest_index(s, other, 0) {
        assert(t[i].id@ == other);
        assert forall|k: int| 0 <= k < i implies (#[trigger] t[k]).id@ != other by {
            if t[k] != m {
                assert(t[k] == s[k]);
            }
        }
    } else {
        assert forall|k: int| 0 <= k < t.len() implies (#[trigger] t[k]).id@ != other by {
            if t[k] != m {
                assert(t[k] == s[k]);
            }
        }
    }
}

/// Manifests by effect id, in the order in which they came.
#[derive(Debug)]
pub struct ManifestRegistry {
    pub manifests: Vec<EffectManifest>,
}

impl View for ManifestRegistry {
    type V = Seq<EffectManifest>;

    open spec fn view(&self) -> Seq<EffectManifest> {
        self.manifests@
    }
}

impl ManifestRegistry {
    pub fn new() -> (r: Self)
        ensures
            r@ == Seq::<EffectManifest>::empty(),
    {
        ManifestRegistry { manifests: Vec::new() }
    }

    fn position(&self, id: &str) -> (r: Option<usize>)
        ensures
            match manifest_index(self@, id@, 0) {
                Some(i) => r == Some(i as usize) && 0 <= i < self.manifests.len(),
                None => r is None,
            },
    {
        let mut i: usize = 0;
        while i < self.manifests.len()
            invariant
                i <= self.manifests.len(),
                manifest_index(self@, id@, 0) == manifest_index(self@, id@, i as int),
            decreases self.manifests.len() - i,
        {
            if str_eq(&self.manifests[i].id, id) {
                return Some(i);
            }
            i = i + 1;
        }
        None
    }

    /// Puts in a manifest, in place of one of the same effect.
    pub fn insert(&mut self, m: EffectManifest)
        ensures
            final(self)@ == with_manifest(old(self)@, m),
    {
        match self.position(&m.id) {
            Some(i) => {
                self.manifests.set(i, m);
            },
            None => {
                self.manifests.push(m);
            },
        }
    }

    pub fn get(&self, id: &str) -> (r: Option<&EffectManifest>)
        ensures
            match manifest_index(self@, id@, 0) {
                Some(i) => r == Some(&self@[i]),
                None => r is None,
            },
    {
        match self.position(id) {
            Some(i) => Some(&self.manifests[i]),
            None => None,
        }
    }

    pub fn len(&self) -> (r: usize)
        ensures
            r == self@.len(),
    {
        self.manifests.len()
    }

    /// The manifests in order.
    pub fn iter_ordered(&self) -> (r: &Vec<EffectManifest>)
        ensures
            r@ == self@,
    {
        &self.manifests
    }
}

impl Default for ManifestRegistry {
    fn default() -> (r: Self)
        ensures
            r@ == Seq::<EffectManifest>::empty(),
    {
        ManifestRegistry::new()
    }
}

/// Presets in the order in which they came.
#[derive(Debug)]
pub struct PresetRegistry {
    pub presets: Vec<EffectPreset>,
}

impl View for PresetRegistry {
    type V = Seq<EffectPreset>;

    open spec fn view(&self) -> Seq<EffectPreset> {
        self.presets@
    }
}

impl PresetRegistry {
    /// The presets in order.
    pub fn iter(&self) -> (r: &Vec<EffectPreset>)
        ensures
            r@ == self@,
    {
        &self.presets
    }

    pub fn len(&self) -> (r: usize)
        ensures
            r == self@.len(),
    {
        self.presets.len()
    }
}

impl Default for PresetRegistry {
    fn default() -> (r: Self)
        ensures
            r@ == Seq::<EffectPreset>::empty(),
    {
        PresetRegistry { presets: Vec::new() }
    }
}

} // verus!
