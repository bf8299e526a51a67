//! Effect manifests: the parameters that an effect declares.

use crate::scalar::{Point, Rgba, Scalar};
use crate::text::{cat, str_eq};
use vstd::prelude::*;

verus! {

/// Top-level manifest, one per effect.
#[derive(Debug, PartialEq)]
pub struct EffectManifest {
    pub id: String,
    pub display_name: String,
    pub category: String,
    pub working_space: WorkingSpace,
    pub pass: PassKind,
    pub parameters: Vec<ParamDecl>,
}

/// Colour space in which an effect's pass runs.
#[derive(Clone, Copy, Debug, PartialEq, Eq, Structural)]
pub enum WorkingSpace {
    Linear,
    SRgb,
}

impl Default for WorkingSpace {
    fn default() -> (r: Self)
        ensures
            r == WorkingSpace::Linear,
    {
        WorkingSpace::Linear
    }
}

#[derive(Clone, Copy, Debug, PartialEq, Eq, Structural)]
pub enum PassKind {
    Gpu,
    Cpu,
}

impl Default for PassKind {
    fn default() -> (r: Self)
        ensures
            r == PassKind::Gpu,
    {
        PassKind::Gpu
    }
}

#[derive(Debug, PartialEq)]
pub struct ParamDecl {
    pub id: String,
    pub display_name: String,
    pub kind: ParamKind,
}

#[derive(Debug, PartialEq)]
#[allow(inconsistent_fields)]
pub enum ParamKind {
    Float { default: Scalar, range: FloatRange },
    Int { default: i32, range: IntRange },
    Bool { default: bool },
    Color { default: Rgba },
    Vec2 { default: Point },
    Enum { variants: Vec<EnumVariant>, default: String },
    Group { parameters: Vec<ParamDecl> },
    OptionalGroup { default_enabled: bool, parameters: Vec<ParamDecl> },
}

#[derive(Clone, Copy, Debug, PartialEq, Eq, Structural)]
pub struct FloatRange {
    pub min: Scalar,
    pub max: Scalar,
}

#[derive(Clone, Copy, Debug, PartialEq, Eq, Structural)]
pub struct IntRange {
    pub min: i32,
    pub max: i32,
}

#[derive(Clone, Debug, PartialEq, Eq)]
pub struct EnumVariant {
    pub id: String,
    pub display_name: String,
}

/// Why a manifest was refused. The texts of `Io` and `Parse` are those of the
/// failing reader or parser.
#[derive(Clone, Debug, PartialEq, Eq)]
pub enum ManifestError {
    Io(String),
    Parse(String),
    DuplicateParameterId(String),
}

/// The text of an error.
pub open spec fn manifest_error_text(e: ManifestError) -> Seq<char> {
    match e {
        ManifestError::Io(t) => "io: "@ + t@,
        ManifestError::Parse(t) => "parse: "@ + t@,
        ManifestError::DuplicateParameterId(id) => "duplicate parameter id: "@ + id@,
    }
}

impl ManifestError {
    pub fn message(&self) -> (r: String)
        ensures
            r@ == manifest_error_text(*self),
    {
        match self {
            ManifestError::Io(t) => cat("io: ", t),
            ManifestError::Parse(t) => cat("parse: ", t),
            ManifestError::DuplicateParameterId(id) => cat("duplicate parameter id: ", id),
        }
    }
}

/// The parameters nested directly in `kind`.
pub open spec fn nested(kind: ParamKind) -> Seq<ParamDecl> {
    match kind {
        ParamKind::Group { parameters } => parameters@,
        ParamKind::OptionalGroup { parameters, .. } => parameters@,
        _ => Seq::empty(),
    }
}

/// Whether `params[..n]` holds a parameter called `id`.
pub open spec fn declared_before(params: Seq<ParamDecl>, n: int, id: Seq<char>) -> bool {
    exists|i: int| 0 <= i < n && (#[trigger] params[i]).id@ == id
}

/// The first id, in declaration order, that repeats an earlier one of its own
/// level; groups are searched where they stand.
pub open spec fn first_duplicate(params: Seq<ParamDecl>) -> Option<Seq<char>>
    decreases params,
{
    if params.len() == 0 {
        None
    } else {
        let n = params.len() - 1;
        match first_duplicate(params.subrange(0, n)) {
            Some(id) => Some(id),
            None => if declared_before(params, n, params[n].id@) {
                Some(params[n].id@)
            } else {
                match params[n].kind {
                    ParamKind::Group { parameters } => first_duplicate(parameters@),
                    ParamKind::OptionalGroup { parameters, .. } => first_duplicate(parameters@),
                    _ => None,
                }
            },
        }
    }
}

/// Whether no two parameters of one level share an id, at any depth.
pub open spec fn distinct_ids(params: Seq<ParamDecl>) -> bool
    decreases params,
{
    &&& forall|i: int, j: int|
        0 <= i < j < params.len() ==> (#[trigger] params[i]).id@ != (#[trigger] params[j]).id@
    &&& forall|i: int|
        0 <= i < params.len() ==> match (#[trigger] params[i]).kind {
            ParamKind::Group { parameters } => distinct_ids(parameters@),
            ParamKind::OptionalGroup { parameters, .. } => distinct_ids(parameters@),
            _ => true,
        }
}

/// A manifest has a duplicate to report exactly where ids of one level are not
/// distinct.
pub proof fn duplicates_are_found(params: Seq<ParamDecl>)
    ensures
        first_duplicate(params) is None <==> distinct_ids(params),
    decreases params,
{
    if params.len() > 0 {
        let n = params.len() - 1;
        let init = params.subrange(0, n);
        duplicates_are_found(init);
        match params[n].kind {
            ParamKind::Group { parameters } => duplicates_are_found(parameters@),
            ParamKind::OptionalGroup { parameters, .. } => duplicates_are_found(parameters@),
            _ => {},
        }
        if distinct_ids(params) {
            assert forall|i: int, j: int| 0 <= i < j < init.len() implies (
            #[trigger] init[i]).id@ != (#[trigger] init[j]).id@ by {
                assert(init[i] == params[i] && init[j] == params[j]);
            }
            assert forall|i: int| 0 <= i < init.len() implies match (#[trigger] init[i]).kind {
                ParamKind::Group { parameters } => distinct_ids(parameters@),
                ParamKind::OptionalGroup { parameters, .. } => distinct_ids(parameters@),
                _ => true,
            } by {
                assert(init[i] == params[i]);
            }
            assert(distinct_ids(init));
        }
        if first_duplicate(params) is None {
            assert(distinct_ids(init));
            assert forall|i: int, j: int| 0 <= i < j < params.len() implies (
            #[trigger] params[i]).id@ != (#[trigger] params[j]).id@ by {
                if j < n {
                    assert(init[i] == params[i] && init[j] == params[j]);
                }
            }
            assert forall|i: int| 0 <= i < params.len() implies match (
            #[trigger] params[i]).kind {
                ParamKind::Group { parameters } => distinct_ids(parameters@),
                ParamKind::OptionalGroup { parameters, .. } => distinct_ids(parameters@),
                _ => true,
            } by {
                if i < n {
                    assert(init[i] == params[i]);
                }
            }
        }
    }
}

/// The dotted path of `id` under `prefix`.
pub open spec fn dotted(prefix: Seq<char>, id: Seq<char>) -> Seq<char> {
    if prefix.len() == 0 {
        id
    } else {
        prefix + "."@ + id
    }
}

/// The dotted path of `id` under `prefix`.
pub fn dotted_path(prefix: &str, id: &str) -> (r: String)
    ensures
        r@ == dotted(prefix@, id@),
{
    if str_eq(prefix, "") {
        proof {
            reveal_strlit("");
        }
        id.to_owned()
    } else {
        proof {
            reveal_strlit("");
            if prefix@.len() == 0 {
                assert(prefix@ =~= ""@);
            }
        }
        let head = cat(prefix, ".");
        cat(&head, id)
    }
}

/// The dotted path of every parameter, in declaration order; a group stands
/// before what it holds.
pub open spec fn all_ids(params: Seq<ParamDecl>, prefix: Seq<char>) -> Seq<Seq<char>>
    decreases params,
{
    if params.len() == 0 {
        Seq::empty()
    } else {
        let n = params.len() - 1;
        let path = dotted(prefix, params[n].id@);
        let own = all_ids(params.subrange(0, n), prefix).push(path);
        match params[n].kind {
            ParamKind::Group { parameters } => own + all_ids(parameters@, path),
            ParamKind::OptionalGroup { parameters, .. } => own + all_ids(parameters@, path),
            _ => own,
        }
    }
}

impl EffectManifest {
    /// Rejects manifests with duplicate parameter ids at the same level.
    pub fn validate(&self) -> (r: Result<(), ManifestError>)
        ensures
            match first_duplicate(self.parameters@) {
                None => r is Ok,
                Some(id) => r matches Err(ManifestError::DuplicateParameterId(t)) && t@ == id,
            },
    {
        match duplicate_in(&self.parameters) {
            None => Ok(()),
            Some(id) => Err(ManifestError::DuplicateParameterId(id)),
        }
    }

    /// Every parameter id in dotted-path form (`"group.subgroup.id"`), in
    /// declaration order.
    pub fn ids(&self) -> (r: Vec<String>)
        ensures
            crate::seqs::views(r@) == all_ids(self.parameters@, Seq::empty()),
    {
        let mut out: Vec<String> = Vec::new();
        collect_ids(&self.parameters, "", &mut out);
        proof {
            reveal_strlit("");
            assert(""@ =~= Seq::<char>::empty());
            assert(crate::seqs::views(out@) =~= all_ids(self.parameters@, Seq::empty()));
        }
        out
    }
}

fn duplicate_in(params: &Vec<ParamDecl>) -> (r: Option<String>)
    ensures
        match first_duplicate(params@) {
            None => r is None,
            Some(id) => r is Some && r->0@ == id,
        },
    decreases params@,
{
    let mut n: usize = 0;
    proof {
        reveal_with_fuel(first_duplicate, 1);
    }
    while n < params.len()
        invariant
            n <= params.len(),
            first_duplicate(params@.subrange(0, n as int)) is None,
        decreases params.len() - n,
    {
        let ghost head = params@.subrange(0, n + 1);
        proof {
            assert(head.subrange(0, n as int) =~= params@.subrange(0, n as int));
            assert(head[n as int] == params@[n as int]);
        }
        let p = &params[n];
        let mut i: usize = 0;
        while i < n
            invariant
                i <= n < params.len(),
                *p == params@[n as int],
                head == params@.subrange(0, n + 1),
                forall|j: int| 0 <= j < i ==> (#[trigger] params@[j]).id@ != p.id@,
                first_duplicate(head.subrange(0, n as int)) is None,
            decreases n - i,
        {
            if str_eq(&params[i].id, &p.id) {
                proof {
                    assert(head[i as int] == params@[i as int]);
                    assert(declared_before(head, n as int, p.id@));
                    assert(first_duplicate(head) == Some(p.id@));
                    duplicate_in_prefix(params@, n + 1);
                }
                return Some(p.id.clone());
            }
            i = i + 1;
        }
        assert(!declared_before(head, n as int, p.id@));
        let inner = match &p.kind {
            ParamKind::Group { parameters } => duplicate_in(parameters),
            ParamKind::OptionalGroup { parameters, .. } => duplicate_in(parameters),
            _ => None,
        };
        proof {
            duplicate_in_prefix(params@, n + 1);
        }
        if inner.is_some() {
            return inner;
        }
        n = n + 1;
    }
    assert(params@.subrange(0, n as int) =~= params@);
    None
}

proof fn duplicate_in_prefix(params: Seq<ParamDecl>, n: int)
    requires
        0 <= n <= params.len(),
    ensures
        first_duplicate(params.subrange(0, n)) is Some ==> first_duplicate(params)
            == first_duplicate(params.subrange(0, n)),
    decreases params.len() - n,
{
    if n < params.len() {
        duplicate_in_prefix(params, n + 1);
        assert(params.subrange(0, n + 1).subrange(0, n) =~= params.subrange(0, n));
    } else {
        assert(params.subrange(0, n) =~= params);
    }
}

fn collect_ids(params: &Vec<ParamDecl>, prefix: &str, out: &mut Vec<String>)
    ensures
        crate::seqs::views(final(out)@) == crate::seqs::views(old(out)@) + all_ids(
            params@,
            prefix@,
        ),
    decreases params@,
{
    broadcast use crate::seqs::group_views;

    let mut n: usize = 0;
    let ghost start = crate::seqs::views(out@);
    proof {
        assert(params@.subrange(0, 0).len() == 0);
        assert(start + all_ids(params@.subrange(0, 0), prefix@) =~= start);
    }
    while n < params.len()
        invariant
            n <= params.len(),
            crate::seqs::views(out@) == start + all_ids(params@.subrange(0, n as int), prefix@),
        decreases params.len() - n,
    {
        let ghost head = params@.subrange(0, n + 1);
        let ghost so_far = all_ids(params@.subrange(0, n as int), prefix@);
        proof {
            assert(head.subrange(0, n as int) =~= params@.subrange(0, n as int));
            assert(head[n as int] == params@[n as int]);
        }
        let p = &params[n];
        let path = dotted_path(prefix, &p.id);
        let ghost before = out@;
        let copy = path.clone();
        out.push(copy);
        proof {
            crate::seqs::views_push(before, copy);
        }
        assert(crate::seqs::views(out@) =~= start + so_far.push(path@));
        match &p.kind {
            ParamKind::Group { parameters } => collect_ids(parameters, &path, out),
            ParamKind::OptionalGroup { parameters, .. } => collect_ids(parameters, &path, out),
            _ => {},
        }
        assert(crate::seqs::views(out@) =~= start + all_ids(head, prefix@));
        n = n + 1;
    }
    assert(params@.subrange(0, n as int) =~= params@);
}

/// A dotted id ends in the id itself, and on the top level is that id.
pub proof fn dotted_id_ends_in_the_id(prefix: Seq<char>, a: Seq<char>, b: Seq<char>)
    ensures
        dotted(Seq::empty(), a) == a,
        a.is_suffix_of(dotted(prefix, a)),
        prefix.is_prefix_of(dotted(prefix, a)),
        prefix.len() > 0 ==> dotted(prefix, a).len() == prefix.len() + 1 + a.len() && dotted(
            prefix,
            a,
        )[prefix.len() as int] == '.',
        dotted(prefix, a) == dotted(prefix, b) <==> a == b,
{
    reveal_strlit(".");
    let (p, q) = (dotted(prefix, a), dotted(prefix, b));
    assert(a =~= p.skip(p.len() - a.len()));
    assert(prefix =~= p.take(prefix.len() as int));
    assert(b =~= q.skip(q.len() - b.len()));
}

/// Every parameter has its id in the list. The ids of a group's parameters
/// are in it too, behind that of the group.
pub proof fn declared_ids_are_listed(params: Seq<ParamDecl>, prefix: Seq<char>, i: int)
    requires
        0 <= i < params.len(),
    ensures
        all_ids(params, prefix).contains(dotted(prefix, params[i].id@)),
        forall|id: Seq<char>|
            #![trigger all_ids(params, prefix).contains(id)]
            all_ids(nested(params[i].kind), dotted(prefix, params[i].id@)).contains(id) ==> all_ids(
                params,
                prefix,
            ).contains(id),
    decreases params.len(),
{
    let n = params.len() - 1;
    let init = params.subrange(0, n);
    let before = all_ids(init, prefix);
    let all = all_ids(params, prefix);
    let path = dotted(prefix, params[n].id@);
    assert(all[before.len() as int] == path);
    if i < n {
        declared_ids_are_listed(init, prefix, i);
        assert(init[i] == params[i]);
        assert forall|id: Seq<char>| before.contains(id) implies #[trigger] all.contains(id) by {
            let k = choose|k: int| 0 <= k < before.len() && before[k] == id;
            assert(all[k] == id);
        }
    } else {
        let inner = all_ids(nested(params[n].kind), path);
        assert forall|id: Seq<char>| inner.contains(id) implies #[trigger] all.contains(id) by {
            let k = choose|k: int| 0 <= k < inner.len() && inner[k] == id;
            assert(all[before.len() + 1 + k] == id);
        }
    }
}

/// The ids of parameters without groups are their own ids in their order.
pub proof fn flat_ids_are_in_order(params: Seq<ParamDecl>, prefix: Seq<char>, i: int)
    requires
        forall|k: int| 0 <= k < params.len() ==> nested((#[trigger] params[k]).kind).len() == 0,
        0 <= i < params.len(),
    ensures
        all_ids(params, prefix).len() == params.len(),
        all_ids(params, prefix)[i] == dotted(prefix, params[i].id@),
    decreases params.len(),
{
    let n = params.len() - 1;
    let init = params.subrange(0, n);
    assert forall|k: int| 0 <= k < init.len() implies nested((#[trigger] init[k]).kind).len()
        == 0 by {
        assert(init[k] == params[k]);
    }
    assert(nested(params[n].kind).len() == 0);
    assert(all_ids(nested(params[n].kind), dotted(prefix, params[n].id@)).len() == 0);
    if n > 0 {
        let k = if i < n {
            i
        } else {
            0
        };
        flat_ids_are_in_order(init, prefix, k);
        assert(init[k] == params[k]);
    } else {
        assert(all_ids(init, prefix).len() == 0);
    }
}

/// A duplicate that is reported is an id that is declared twice in one place.
pub proof fn reported_duplicate_is_declared_twice(params: Seq<ParamDecl>, i: int)
    requires
        0 <= i < params.len(),
        declared_before(params, i, params[i].id@),
        first_duplicate(params.subrange(0, i)) is None,
    ensures
        first_duplicate(params) == Some(params[i].id@),
    decreases params.len(),
{
    let n = params.len() - 1;
    let init = params.subrange(0, n);
    if i < n {
        assert(init.subrange(0, i) =~= params.subrange(0, i));
        let k = choose|k: int| 0 <= k < i && (#[trigger] params[k]).id@ == params[i].id@;
        assert(init[k] == params[k]);
        assert(init[i] == params[i]);
        reported_duplicate_is_declared_twice(init, i);
    } else {
        assert(params.subrange(0, n) =~= init);
    }
}

} // verus!
