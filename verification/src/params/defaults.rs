//! What a fresh set of values holds: every parameter of a manifest under its
//! dotted path, at its declared default.

use crate::params::manifest::{
    all_ids, distinct_ids, dotted, duplicates_are_found, first_duplicate, nested, EffectManifest,
    ParamDecl, ParamKind,
};
use crate::params::values::{default_values, enum_default, seeded, ParamValueModel};
use vstd::prelude::*;

verus! {

/// The value that a parameter starts with; a plain group has none.
pub open spec fn own_default(kind: ParamKind) -> Option<ParamValueModel> {
    match kind {
        ParamKind::Float { default, .. } => Some(ParamValueModel::Float(default)),
        ParamKind::Int { default, .. } => Some(ParamValueModel::Int(default)),
        ParamKind::Bool { default } => Some(ParamValueModel::Bool(default)),
        ParamKind::Color { default } => Some(ParamValueModel::Color(default)),
        ParamKind::Vec2 { default } => Some(ParamValueModel::Vec2(default)),
        ParamKind::Enum { variants, default } => Some(
            ParamValueModel::Enum(enum_default(variants@, default@)),
        ),
        ParamKind::Group { .. } => None,
        ParamKind::OptionalGroup { default_enabled, .. } => Some(
            ParamValueModel::GroupEnabled(default_enabled),
        ),
    }
}

/// The kind of every parameter, in declaration order; a group stands before
/// what it holds.
pub open spec fn all_kinds(params: Seq<ParamDecl>) -> Seq<ParamKind>
    decreases params,
{
    if params.len() == 0 {
        Seq::empty()
    } else {
        let n = params.len() - 1;
        let own = all_kinds(params.subrange(0, n)).push(params[n].kind);
        match params[n].kind {
            ParamKind::Group { parameters } => own + all_kinds(parameters@),
            ParamKind::OptionalGroup { parameters, .. } => own + all_kinds(parameters@),
            _ => own,
        }
    }
}

/// Whether no id is empty or holds a dot, at any depth.
pub open spec fn plain_ids(params: Seq<ParamDecl>) -> bool
    decreases params,
{
    forall|i: int|
        0 <= i < params.len() ==> (#[trigger] params[i]).id@.len() > 0 && !params[i].id@.contains(
            '.',
        ) && match params[i].kind {
            ParamKind::Group { parameters } => plain_ids(parameters@),
            ParamKind::OptionalGroup { parameters, .. } => plain_ids(parameters@),
            _ => true,
        }
}

/// `m` with the default of each kind stored under the path at its position.
spec fn put_all(
    paths: Seq<Seq<char>>,
    kinds: Seq<ParamKind>,
    m: Map<Seq<char>, ParamValueModel>,
) -> Map<Seq<char>, ParamValueModel>
    decreases paths.len(),
{
    if paths.len() == 0 {
        m
    } else {
        let before = put_all(paths.drop_last(), kinds.drop_last(), m);
        match own_default(kinds.last()) {
            Some(v) => before.insert(paths.last(), v),
            None => before,
        }
    }
}

proof fn put_all_joins(
    p: Seq<Seq<char>>,
    k: Seq<ParamKind>,
    q: Seq<Seq<char>>,
    l: Seq<ParamKind>,
    m: Map<Seq<char>, ParamValueModel>,
)
    requires
        p.len() == k.len(),
        q.len() == l.len(),
    ensures
        put_all(p + q, k + l, m) == put_all(q, l, put_all(p, k, m)),
    decreases q.len(),
{
    if q.len() == 0 {
        assert(p + q =~= p);
        assert(k + l =~= k);
    } else {
        assert((p + q).drop_last() =~= p + q.drop_last());
        assert((k + l).drop_last() =~= k + l.drop_last());
        put_all_joins(p, k, q.drop_last(), l.drop_last(), m);
    }
}

proof fn put_one_more(
    p: Seq<Seq<char>>,
    k: Seq<ParamKind>,
    path: Seq<char>,
    kind: ParamKind,
    m: Map<Seq<char>, ParamValueModel>,
)
    ensures
        put_all(p.push(path), k.push(kind), m) == match own_default(kind) {
            Some(v) => put_all(p, k, m).insert(path, v),
            None => put_all(p, k, m),
        },
{
    assert(p.push(path).drop_last() =~= p);
    assert(k.push(kind).drop_last() =~= k);
}

/// Seeding stores the defaults one by one.
proof fn seeded_puts_all(
    params: Seq<ParamDecl>,
    prefix: Seq<char>,
    m: Map<Seq<char>, ParamValueModel>,
)
    ensures
        all_kinds(params).len() == all_ids(params, prefix).len(),
        seeded(params, prefix, m) == put_all(all_ids(params, prefix), all_kinds(params), m),
    decreases params,
{
    if params.len() > 0 {
        let n = params.len() - 1;
        let init = params.subrange(0, n);
        let path = dotted(prefix, params[n].id@);
        let p = all_ids(init, prefix);
        let k = all_kinds(init);
        seeded_puts_all(init, prefix, m);
        put_one_more(p, k, path, params[n].kind, m);
        let own = put_all(p.push(path), k.push(params[n].kind), m);
        match params[n].kind {
            ParamKind::Group { parameters } => {
                seeded_puts_all(parameters@, path, own);
                put_all_joins(
                    p.push(path),
                    k.push(params[n].kind),
                    all_ids(parameters@, path),
                    all_kinds(parameters@),
                    m,
                );
            },
            ParamKind::OptionalGroup { parameters, .. } => {
                seeded_puts_all(parameters@, path, own);
                put_all_joins(
                    p.push(path),
                    k.push(params[n].kind),
                    all_ids(parameters@, path),
                    all_kinds(parameters@),
                    m,
                );
            },
            _ => {},
        }
    }
}

/// Whether no path occurs twice.
pub open spec fn distinct_paths(paths: Seq<Seq<char>>) -> bool {
    forall|i: int, j: int| 0 <= i < j < paths.len() ==> #[trigger] paths[i] != #[trigger] paths[j]
}

/// Whether one of the parameters at `paths` starts with a value under `id`.
pub open spec fn starts_with_value(
    paths: Seq<Seq<char>>,
    kinds: Seq<ParamKind>,
    id: Seq<char>,
) -> bool {
    exists|i: int|
        0 <= i < paths.len() && #[trigger] paths[i] == id && own_default(kinds[i]) is Some
}

proof fn put_all_holds(
    paths: Seq<Seq<char>>,
    kinds: Seq<ParamKind>,
    m: Map<Seq<char>, ParamValueModel>,
)
    requires
        paths.len() == kinds.len(),
        distinct_paths(paths),
    ensures
        forall|i: int|
            0 <= i < paths.len() ==> match own_default(kinds[i]) {
                Some(v) => put_all(paths, kinds, m).contains_key(#[trigger] paths[i]) && put_all(
                    paths,
                    kinds,
                    m,
                )[paths[i]] == v,
                None => true,
            },
        forall|id: Seq<char>| #[trigger]
            put_all(paths, kinds, m).contains_key(id) ==> m.contains_key(id) || starts_with_value(
                paths,
                kinds,
                id,
            ),
    decreases paths.len(),
{
    if paths.len() > 0 {
        let p = paths.drop_last();
        let k = kinds.drop_last();
        let n = paths.len() - 1;
        assert(distinct_paths(p)) by {
            assert forall|i: int, j: int| 0 <= i < j < p.len() implies #[trigger] p[i]
                != #[trigger] p[j] by {
                assert(paths[i] == p[i] && paths[j] == p[j]);
            }
        }
        put_all_holds(p, k, m);
        let before = put_all(p, k, m);
        let after = put_all(paths, kinds, m);
        assert forall|i: int| 0 <= i < paths.len() implies match own_default(kinds[i]) {
            Some(v) => after.contains_key(#[trigger] paths[i]) && after[paths[i]] == v,
            None => true,
        } by {
            if i < n {
                assert(p[i] == paths[i] && k[i] == kinds[i]);
                assert(paths[i] != paths[n]);
            }
        }
        assert forall|id: Seq<char>| #[trigger] after.contains_key(id) implies m.contains_key(id)
            || starts_with_value(paths, kinds, id) by {
            if before.contains_key(id) {
                if starts_with_value(p, k, id) {
                    let i = choose|i: int|
                        0 <= i < p.len() && #[trigger] p[i] == id && own_default(k[i]) is Some;
                    assert(paths[i] == id && kinds[i] == k[i]);
                }
            } else {
                assert(paths[n] == id);
            }
        }
    }
}

/// Whether `path` is `base` or lies in the group at `base`.
spec fn under(path: Seq<char>, base: Seq<char>) -> bool {
    &&& path.len() >= base.len()
    &&& path.take(base.len() as int) == base
    &&& path.len() > base.len() ==> path[base.len() as int] == '.'
}

proof fn under_is_transitive(a: Seq<char>, b: Seq<char>, c: Seq<char>)
    requires
        under(a, b),
        under(b, c),
    ensures
        under(a, c),
{
    assert(a.take(c.len() as int) =~= b.take(c.len() as int));
    if b.len() > c.len() {
        assert(a.take(b.len() as int)[c.len() as int] == b[c.len() as int]);
    }
}

proof fn dotted_is_under(prefix: Seq<char>, id: Seq<char>)
    requires
        prefix.len() > 0,
    ensures
        under(dotted(prefix, id), prefix),
        dotted(prefix, id).len() > prefix.len(),
{
    reveal_strlit(".");
    assert(dotted(prefix, id).take(prefix.len() as int) =~= prefix);
}

/// A path lies under one id of a level only.
proof fn under_one(path: Seq<char>, prefix: Seq<char>, a: Seq<char>, b: Seq<char>)
    requires
        under(path, dotted(prefix, a)),
        under(path, dotted(prefix, b)),
        !a.contains('.'),
        !b.contains('.'),
    ensures
        a == b,
{
    reveal_strlit(".");
    let o: int = if prefix.len() == 0 {
        0
    } else {
        prefix.len() as int + 1
    };
    let x = dotted(prefix, a);
    let y = dotted(prefix, b);
    assert forall|i: int| 0 <= i < a.len() implies #[trigger] a[i] == path[o + i] by {
        assert(x[o + i] == a[i]);
        assert(path.take(x.len() as int)[o + i] == path[o + i]);
    }
    assert forall|i: int| 0 <= i < b.len() implies #[trigger] b[i] == path[o + i] by {
        assert(y[o + i] == b[i]);
        assert(path.take(y.len() as int)[o + i] == path[o + i]);
    }
    if a.len() < b.len() {
        assert(b[a.len() as int] == '.');
    } else if b.len() < a.len() {
        assert(a[b.len() as int] == '.');
    } else {
        assert(a =~= b);
    }
}

/// Every path of a level lies under one of its ids.
proof fn paths_are_under(params: Seq<ParamDecl>, prefix: Seq<char>, k: int)
    requires
        plain_ids(params),
        0 <= k < all_ids(params, prefix).len(),
    ensures
        exists|i: int|
            0 <= i < params.len() && under(
                all_ids(params, prefix)[k],
                dotted(prefix, (#[trigger] params[i]).id@),
            ),
    decreases params, 0nat,
{
    let n = params.len() - 1;
    let init = params.subrange(0, n);
    let path = dotted(prefix, params[n].id@);
    let p = all_ids(init, prefix);
    assert(plain_ids(init)) by {
        assert forall|i: int| 0 <= i < init.len() implies (#[trigger] init[i]).id@.len() > 0
            && !init[i].id@.contains('.') && match init[i].kind {
            ParamKind::Group { parameters } => plain_ids(parameters@),
            ParamKind::OptionalGroup { parameters, .. } => plain_ids(parameters@),
            _ => true,
        } by {
            assert(init[i] == params[i]);
        }
    }
    if k < p.len() {
        paths_are_under(init, prefix, k);
        let i = choose|i: int|
            0 <= i < init.len() && under(p[k], dotted(prefix, (#[trigger] init[i]).id@));
        assert(params[i] == init[i]);
        assert(all_ids(params, prefix)[k] == p[k]);
    } else if k == p.len() {
        assert(path.take(path.len() as int) =~= path);
        assert(all_ids(params, prefix)[k] == path);
        assert(under(all_ids(params, prefix)[k], dotted(prefix, params[n].id@)));
    } else {
        let inner = nested(params[n].kind);
        let j = k - p.len() - 1;
        assert(all_ids(params, prefix)[k] == all_ids(inner, path)[j]);
        nested_is_under(inner, path, j);
        assert(under(all_ids(params, prefix)[k], dotted(prefix, params[n].id@)));
    }
}

/// Every path in a group lies under the group, and is not the group's own.
proof fn nested_is_under(inner: Seq<ParamDecl>, path: Seq<char>, j: int)
    requires
        plain_ids(inner),
        path.len() > 0,
        0 <= j < all_ids(inner, path).len(),
    ensures
        under(all_ids(inner, path)[j], path),
        all_ids(inner, path)[j].len() > path.len(),
    decreases inner, 1nat,
{
    paths_are_under(inner, path, j);
    let i = choose|i: int|
        0 <= i < inner.len() && under(
            all_ids(inner, path)[j],
            dotted(path, (#[trigger] inner[i]).id@),
        );
    dotted_is_under(path, inner[i].id@);
    under_is_transitive(all_ids(inner, path)[j], dotted(path, inner[i].id@), path);
}

/// Where ids are distinct on every level, none is empty and none holds a dot,
/// no two parameters have one path.
pub proof fn paths_are_distinct(params: Seq<ParamDecl>, prefix: Seq<char>)
    requires
        distinct_ids(params),
        plain_ids(params),
    ensures
        distinct_paths(all_ids(params, prefix)),
    decreases params,
{
    if params.len() > 0 {
        let n = params.len() - 1;
        let init = params.subrange(0, n);
        let path = dotted(prefix, params[n].id@);
        let p = all_ids(init, prefix);
        let all = all_ids(params, prefix);
        let inner = nested(params[n].kind);
        assert forall|i: int| 0 <= i < init.len() implies #[trigger] init[i] == params[i] by {}
        assert(distinct_ids(init) && plain_ids(init));
        paths_are_distinct(init, prefix);
        match params[n].kind {
            ParamKind::Group { parameters } => paths_are_distinct(parameters@, path),
            ParamKind::OptionalGroup { parameters, .. } => paths_are_distinct(parameters@, path),
            _ => {},
        }
        assert(path.len() > 0);
        assert(under(path, path)) by {
            assert(path.take(path.len() as int) =~= path);
        }
        assert forall|i: int, j: int| 0 <= i < j < all.len() implies #[trigger] all[i]
            != #[trigger] all[j] by {
            if j > p.len() {
                nested_is_under(inner, path, j - p.len() - 1);
                assert(all[j] == all_ids(inner, path)[j - p.len() - 1]);
            }
            if i < p.len() {
                assert(all[i] == p[i]);
                if j < p.len() {
                    assert(all[j] == p[j]);
                } else {
                    paths_are_under(init, prefix, i);
                    let a = choose|a: int|
                        0 <= a < init.len() && under(
                            p[i],
                            dotted(prefix, (#[trigger] init[a]).id@),
                        );
                    if all[i] == all[j] {
                        under_one(all[i], prefix, init[a].id@, params[n].id@);
                        assert(params[a].id@ != params[n].id@);
                    }
                }
            } else if i > p.len() {
                assert(all[i] == all_ids(inner, path)[i - p.len() - 1]);
            }
        }
    }
}

/// A fresh set of values holds, for a manifest that is valid and whose ids are
/// not empty and hold no dots, exactly the paths of the parameters other than
/// plain groups, each at its declared default.
pub proof fn defaults_are_stored(manifest: EffectManifest)
    requires
        first_duplicate(manifest.parameters@) is None,
        plain_ids(manifest.parameters@),
    ensures
        ({
            let paths = all_ids(manifest.parameters@, Seq::empty());
            let kinds = all_kinds(manifest.parameters@);
            let values = default_values(manifest.parameters@);
            &&& kinds.len() == paths.len()
            &&& distinct_paths(paths)
            &&& forall|i: int|
                0 <= i < paths.len() ==> match own_default(kinds[i]) {
                    Some(v) => values.contains_key(#[trigger] paths[i]) && values[paths[i]] == v,
                    None => !values.contains_key(paths[i]),
                }
            &&& forall|id: Seq<char>| #[trigger]
                values.contains_key(id) <==> starts_with_value(paths, kinds, id)
        }),
{
    let params = manifest.parameters@;
    let paths = all_ids(params, Seq::empty());
    let kinds = all_kinds(params);
    let empty = Map::<Seq<char>, ParamValueModel>::empty();
    let values = default_values(params);
    duplicates_are_found(params);
    paths_are_distinct(params, Seq::empty());
    seeded_puts_all(params, Seq::empty(), empty);
    put_all_holds(paths, kinds, empty);
    assert forall|i: int| 0 <= i < paths.len() implies match own_default(kinds[i]) {
        Some(v) => values.contains_key(#[trigger] paths[i]) && values[paths[i]] == v,
        None => !values.contains_key(paths[i]),
    } by {
        if own_default(kinds[i]) is None && values.contains_key(paths[i]) {
            let j = choose|j: int|
                0 <= j < paths.len() && #[trigger] paths[j] == paths[i] && own_default(
                    kinds[j],
                ) is Some;
            assert(j == i);
        }
    }
    assert forall|id: Seq<char>| #[trigger] values.contains_key(id) <==> starts_with_value(
        paths,
        kinds,
        id,
    ) by {
        if starts_with_value(paths, kinds, id) {
            let j = choose|j: int|
                0 <= j < paths.len() && #[trigger] paths[j] == id && own_default(kinds[j]) is Some;
            assert(values.contains_key(paths[j]));
        }
    }
}

} // verus!
