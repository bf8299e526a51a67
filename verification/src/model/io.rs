//! Project files. Asset paths under the project file's directory are stored
//! relative to it, and resolved back on load; the file extension convention
//! is `.felx`.

use crate::model::asset::{Asset, AssetId, AssetModel};
use crate::model::composition::CompositionModel;
use crate::model::layer::LayerKind;
use crate::model::project::{
    comp_errors, is_asset, largest_asset_id, project_can_fix_up, project_errors, project_fixed_up,
    validation_errors, Project, ProjectModel, FORMAT_VERSION,
};
use crate::paths::{
    is_absolute, is_absolute_path, join, join_path, parent, parent_of, same_path, strip_prefix,
    strip_prefix_of, strip_then_join,
};
use crate::seqs::{first_where, group_views, views};
use crate::text::{cat, decimal, decimal_text, str_eq};
use vstd::prelude::*;

verus! {

/// Why a project could not be loaded. The texts of `Io` and `Parse` are those
/// of the failing reader or parser.
#[derive(Clone, Debug, PartialEq, Eq)]
pub enum LoadError {
    Io(String),
    Parse(String),
    UnsupportedFormatVersion { found: u32, max_supported: u32 },
}

/// The text of a load error.
pub open spec fn load_error_text(e: LoadError) -> Seq<char> {
    match e {
        LoadError::Io(t) => "io: "@ + t@,
        LoadError::Parse(t) => "parse: "@ + t@,
        LoadError::UnsupportedFormatVersion { found, max_supported } => (((
        "unsupported project format version "@ + decimal(found as nat)) + " (max supported: "@)
            + decimal(max_supported as nat)) + ")"@,
    }
}

impl LoadError {
    pub fn message(&self) -> (r: String)
        ensures
            r@ == load_error_text(*self),
    {
        match self {
            LoadError::Io(t) => cat("io: ", t),
            LoadError::Parse(t) => cat("parse: ", t),
            LoadError::UnsupportedFormatVersion { found, max_supported } => {
                let a = decimal_text(*found as u64);
                let b = decimal_text(*max_supported as u64);
                let s = cat("unsupported project format version ", &a);
                let s = cat(&s, " (max supported: ");
                let s = cat(&s, &b);
                cat(&s, ")")
            },
        }
    }
}

/// Why a project could not be saved.
#[derive(Clone, Debug, PartialEq, Eq)]
pub enum SaveError {
    Io(String),
    Serialize(String),
}

/// The text of a save error.
pub open spec fn save_error_text(e: SaveError) -> Seq<char> {
    match e {
        SaveError::Io(t) => "io: "@ + t@,
        SaveError::Serialize(t) => "serialize: "@ + t@,
    }
}

impl SaveError {
    pub fn message(&self) -> (r: String)
        ensures
            r@ == save_error_text(*self),
    {
        match self {
            SaveError::Io(t) => cat("io: ", t),
            SaveError::Serialize(t) => cat("serialize: ", t),
        }
    }
}

/// The directory of a project file; empty for a path without one.
pub open spec fn project_dir(path: Seq<char>) -> Seq<char> {
    match parent(path) {
        Some(d) => d,
        None => Seq::empty(),
    }
}

/// The directory of a project file; empty for a path without one.
pub fn project_dir_of(path: &str) -> (r: String)
    ensures
        r@ == project_dir(path@),
{
    match parent_of(path) {
        Some(d) => d,
        None => {
            let none = String::new();
            assert(none@ =~= Seq::<char>::empty());
            none
        },
    }
}

/// `a` as it is stored in a project file in `dir`.
pub open spec fn stored_asset(a: AssetModel, dir: Seq<char>) -> AssetModel {
    match strip_prefix(a.path, dir) {
        Some(rel) => AssetModel { path: rel, ..a },
        None => a,
    }
}

/// `a` as it is read from a project file in `dir`.
pub open spec fn resolved_asset(a: AssetModel, dir: Seq<char>) -> AssetModel {
    if !is_absolute(a.path) && dir.len() > 0 {
        AssetModel { path: join(dir, a.path), ..a }
    } else {
        a
    }
}

/// `p` as it is stored at `path`.
pub open spec fn stored_project(p: ProjectModel, path: Seq<char>) -> ProjectModel {
    ProjectModel {
        assets: p.assets.map_values(|a: AssetModel| stored_asset(a, project_dir(path))),
        ..p
    }
}

/// `p` with its asset paths resolved against the directory of `path`.
pub open spec fn resolved_project(p: ProjectModel, path: Seq<char>) -> ProjectModel {
    ProjectModel {
        assets: p.assets.map_values(|a: AssetModel| resolved_asset(a, project_dir(path))),
        ..p
    }
}

/// Whether storing and resolving the asset path `p` leads back to the same
/// place: it does unless `p` is relative and outside the directory.
pub open spec fn survives_storing(p: Seq<char>, dir: Seq<char>) -> bool {
    is_absolute(p) || dir.len() == 0 || strip_prefix(p, dir) is Some
}

/// A project that is saved to `path` and loaded from there has the assets, in
/// order, that it had before: the same ids and kinds, at the same places.
pub proof fn saving_keeps_assets(p: ProjectModel, path: Seq<char>, i: int)
    requires
        0 <= i < p.assets.len(),
        survives_storing(p.assets[i].path, project_dir(path)),
    ensures
        ({
            let back = resolved_project(stored_project(p, path), path);
            &&& back.assets.len() == p.assets.len()
            &&& back.assets[i].id == p.assets[i].id
            &&& back.assets[i].kind == p.assets[i].kind
            &&& same_path(back.assets[i].path, p.assets[i].path)
        }),
{
    let dir = project_dir(path);
    let a = p.assets[i];
    if strip_prefix(a.path, dir) is Some {
        strip_then_join(a.path, dir);
    }
}

/// Apart from asset paths, a project that is saved and loaded is unchanged, up
/// to ids that were not known.
pub proof fn saving_keeps_the_rest(p: ProjectModel, path: Seq<char>)
    ensures
        ({
            let back = resolved_project(stored_project(p, path), path);
            &&& back.format_version == p.format_version
            &&& back.compositions == p.compositions
            &&& back.next_asset_id == p.next_asset_id
            &&& back.next_comp_id == p.next_comp_id
        }),
{
}

/// Whether a project holds every id that is to be given out next, as one that
/// was made by [`Project::new`] or loaded does.
pub open spec fn ids_known(p: ProjectModel) -> bool {
    &&& p.next_asset_id != 0
    &&& p.next_comp_id != 0
    &&& forall|i: int|
        0 <= i < p.compositions.len() ==> (#[trigger] p.compositions[i]).next_layer_id != 0
}

/// Loading what was saved gives the project back: everything in it but for the
/// asset paths is as it was, and each of those leads to the same place.
pub proof fn saved_project_loads_back(p: ProjectModel, path: Seq<char>)
    requires
        ids_known(p),
        forall|i: int|
            0 <= i < p.assets.len() ==> survives_storing(
                (#[trigger] p.assets[i]).path,
                project_dir(path),
            ),
    ensures
        ({
            let back = project_fixed_up(resolved_project(stored_project(p, path), path));
            &&& back == (ProjectModel { assets: back.assets, ..p })
            &&& back.assets.len() == p.assets.len()
            &&& forall|i: int|
                0 <= i < p.assets.len() ==> (#[trigger] back.assets[i]).id == p.assets[i].id
                    && back.assets[i].kind == p.assets[i].kind && same_path(
                    back.assets[i].path,
                    p.assets[i].path,
                )
        }),
{
    let q = resolved_project(stored_project(p, path), path);
    let back = project_fixed_up(q);
    assert(back.compositions =~= p.compositions) by {
        assert forall|i: int| 0 <= i < p.compositions.len() implies back.compositions[i]
            == p.compositions[i] by {
            assert(p.compositions[i].next_layer_id != 0);
        }
    }
    assert forall|i: int| 0 <= i < p.assets.len() implies (#[trigger] back.assets[i]).id
        == p.assets[i].id && back.assets[i].kind == p.assets[i].kind && same_path(
        back.assets[i].path,
        p.assets[i].path,
    ) by {
        assert(survives_storing(p.assets[i].path, project_dir(path)));
        saving_keeps_assets(p, path, i);
    }
}

proof fn same_ids_found(a: Seq<AssetModel>, b: Seq<AssetModel>, id: AssetId, from: int)
    requires
        a.len() == b.len(),
        forall|i: int| 0 <= i < a.len() ==> (#[trigger] a[i]).id == b[i].id,
        0 <= from <= a.len(),
    ensures
        first_where(a, is_asset(id), from) == first_where(b, is_asset(id), from),
    decreases a.len() - from,
{
    if from < a.len() {
        assert(a[from].id == b[from].id);
        same_ids_found(a, b, id, from + 1);
    }
}

proof fn same_comp_errors(p: ProjectModel, q: ProjectModel, c: CompositionModel, n: nat)
    requires
        p.compositions == q.compositions,
        p.assets.len() == q.assets.len(),
        forall|i: int| 0 <= i < p.assets.len() ==> (#[trigger] p.assets[i]).id == q.assets[i].id,
        n <= c.layers.len(),
    ensures
        comp_errors(p, c, n) == comp_errors(q, c, n),
    decreases n,
{
    if n > 0 {
        same_comp_errors(p, q, c, (n - 1) as nat);
        match c.layers[n - 1].kind {
            LayerKind::Video { asset } => same_ids_found(p.assets, q.assets, asset, 0),
            LayerKind::Image { asset } => same_ids_found(p.assets, q.assets, asset, 0),
            LayerKind::Audio { asset } => same_ids_found(p.assets, q.assets, asset, 0),
            _ => {},
        }
    }
}

proof fn same_project_errors(p: ProjectModel, q: ProjectModel, n: nat)
    requires
        p.compositions == q.compositions,
        p.assets.len() == q.assets.len(),
        forall|i: int| 0 <= i < p.assets.len() ==> (#[trigger] p.assets[i]).id == q.assets[i].id,
        n <= p.compositions.len(),
    ensures
        project_errors(p, n) == project_errors(q, n),
    decreases n,
{
    if n > 0 {
        same_project_errors(p, q, (n - 1) as nat);
        let c = p.compositions[n - 1];
        same_comp_errors(p, q, c, c.layers.len());
    }
}

/// Saving and loading changes nothing about which errors a project has.
pub proof fn saving_keeps_validity(p: ProjectModel, path: Seq<char>)
    ensures
        validation_errors(resolved_project(stored_project(p, path), path)) == validation_errors(p),
{
    let q = resolved_project(stored_project(p, path), path);
    assert forall|i: int| 0 <= i < p.assets.len() implies (#[trigger] p.assets[i]).id
        == q.assets[i].id by {}
    same_project_errors(p, q, p.compositions.len());
}

impl Project {
    /// The assets as they are stored in a project file at `path`: paths under
    /// the file's directory become relative to it, others stay as they are.
    pub fn stored_assets(&self, path: &str) -> (r: Vec<Asset>)
        ensures
            views(r@) == stored_project(self@, path@).assets,
    {
        broadcast use group_views;

        let dir = project_dir_of(path);
        let mut out: Vec<Asset> = Vec::new();
        let mut i: usize = 0;
        assert(views(out@) =~= stored_project(self@, path@).assets.take(0));
        while i < self.assets.len()
            invariant
                i <= self.assets.len(),
                dir@ == project_dir(path@),
                views(out@) == stored_project(self@, path@).assets.take(i as int),
            decreases self.assets.len() - i,
        {
            let a = &self.assets[i];
            assert(self@.assets[i as int] == a@);
            let asset = match strip_prefix_of(&a.path, &dir) {
                Some(rel) => Asset { id: a.id, path: rel, kind: a.kind },
                None => a.duplicate(),
            };
            assert(asset@ == stored_project(self@, path@).assets[i as int]);
            let ghost before = out@;
            out.push(asset);
            proof {
                crate::seqs::views_push(before, asset);
            }
            i = i + 1;
            assert(views(out@) =~= stored_project(self@, path@).assets.take(i as int));
        }
        assert(stored_project(self@, path@).assets.take(i as int) =~= stored_project(
            self@,
            path@,
        ).assets);
        out
    }

    /// Completes a project just read from `path`: refuses a newer format,
    /// resolves asset paths against the file's directory and works out ids
    /// that the file did not hold.
    pub fn finish_load(self, path: &str) -> (r: Result<Project, LoadError>)
        requires
            self@.format_version <= FORMAT_VERSION ==> project_can_fix_up(self@),
        ensures
            self@.format_version > FORMAT_VERSION ==> r == Err::<Project, LoadError>(
                LoadError::UnsupportedFormatVersion {
                    found: self@.format_version,
                    max_supported: FORMAT_VERSION,
                },
            ),
            self@.format_version <= FORMAT_VERSION ==> r is Ok && r->Ok_0@ == project_fixed_up(
                resolved_project(self@, path@),
            ),
    {
        if self.format_version > FORMAT_VERSION {
            return Err(
                LoadError::UnsupportedFormatVersion {
                    found: self.format_version,
                    max_supported: FORMAT_VERSION,
                },
            );
        }
        let ghost start = self@;
        let mut p = self;
        let dir = project_dir_of(path);
        let resolve = !str_eq(&dir, "");
        proof {
            reveal_strlit("");
            if dir@.len() == 0 {
                assert(dir@ =~= ""@);
            }
        }
        let mut i: usize = 0;
        while i < p.assets.len()
            invariant
                i <= p.assets.len(),
                dir@ == project_dir(path@),
                resolve == (dir@.len() > 0),
                p@.assets.len() == start.assets.len(),
                p@ == (ProjectModel { assets: p@.assets, ..start }),
                forall|k: int|
                    0 <= k < i ==> #[trigger] p@.assets[k] == resolved_asset(
                        start.assets[k],
                        dir@,
                    ),
                forall|k: int| i <= k < p@.assets.len() ==> #[trigger] p@.assets[k] == start.assets[k],
            decreases p.assets.len() - i,
        {
            let ghost before = p@;
            assert(p@.assets[i as int] == p.assets@[i as int]@);
            if resolve && !is_absolute_path(&p.assets[i].path) {
                let full = join_path(&dir, &p.assets[i].path);
                p.assets[i].path = full;
            }
            assert(p@.assets =~= before.assets.update(
                i as int,
                resolved_asset(start.assets[i as int], dir@),
            ));
            i = i + 1;
        }
        proof {
            assert(p@.assets =~= resolved_project(start, path@).assets);
            same_ids_largest(start.assets, p@.assets);
        }
        p.fixup_after_load();
        Ok(p)
    }
}

proof fn same_ids_largest(a: Seq<AssetModel>, b: Seq<AssetModel>)
    requires
        a.len() == b.len(),
        forall|i: int| 0 <= i < a.len() ==> (#[trigger] a[i]).id == b[i].id,
    ensures
        largest_asset_id(a) == largest_asset_id(b),
    decreases a.len(),
{
    if a.len() > 0 {
        assert(a.last() == a[a.len() - 1]);
        same_ids_largest(a.drop_last(), b.drop_last());
    }
}

/// An asset under the directory of the project file is stored by a path
/// relative to it; any other is stored as it is.
pub proof fn assets_are_stored_relative(p: ProjectModel, path: Seq<char>, i: int)
    requires
        0 <= i < p.assets.len(),
        project_dir(path).len() > 0,
    ensures
        ({
            let (a, s) = (p.assets[i], stored_project(p, path).assets[i]);
            &&& s.id == a.id
            &&& s.kind == a.kind
            &&& strip_prefix(a.path, project_dir(path)) is Some ==> !is_absolute(s.path)
                && same_path(join(project_dir(path), s.path), a.path)
            &&& strip_prefix(a.path, project_dir(path)) is None ==> s == a
        }),
{
    if strip_prefix(p.assets[i].path, project_dir(path)) is Some {
        strip_then_join(p.assets[i].path, project_dir(path));
    }
}

/// A relative path is resolved against the directory of the project file, and
/// an absolute one stays.
pub proof fn assets_are_resolved(p: ProjectModel, path: Seq<char>, i: int)
    requires
        0 <= i < p.assets.len(),
        is_absolute(project_dir(path)),
    ensures
        ({
            let (a, r) = (p.assets[i], resolved_project(p, path).assets[i]);
            &&& is_absolute(r.path)
            &&& is_absolute(a.path) ==> r == a
            &&& a.path.is_suffix_of(r.path)
            &&& r.id == a.id
            &&& r.kind == a.kind
        }),
{
    let (a, r) = (p.assets[i], resolved_project(p, path).assets[i]);
    assert(a.path =~= r.path.skip(r.path.len() - a.path.len()));
}

} // verus!
