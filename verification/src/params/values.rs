//! Runtime parameter values, keyed by dotted parameter id.
//!
//! Built from an [`EffectManifest`] with each parameter at its declared
//! default, and changed as the user edits sliders, colours and the like.

use crate::model::curve::{curve_sample, Curve, CurveModel, CurveSample};
use crate::model::time::Rational;
use crate::params::manifest::{
    all_ids, dotted, dotted_path, EffectManifest, EnumVariant, ParamDecl, ParamKind,
};
use crate::scalar::{Point, Rgba, Scalar};
use crate::text::{lex_less, lex_less_irreflexive, lex_less_total, lex_less_transitive, str_eq, str_less};
use vstd::prelude::*;

verus! {

#[derive(Clone, Debug, PartialEq)]
pub enum ParamValue {
    Float(Scalar),
    /// Animated float, sampled at the playhead time.
    FloatCurve(Curve<Scalar>),
    Int(i32),
    Bool(bool),
    Color(Rgba),
    Vec2(Point),
    Enum(String),
    /// Whether the surrounding optional group is enabled.
    GroupEnabled(bool),
}

/// What a parameter value holds.
pub enum ParamValueModel {
    Float(Scalar),
    FloatCurve(CurveModel<Scalar>),
    Int(i32),
    Bool(bool),
    Color(Rgba),
    Vec2(Point),
    Enum(Seq<char>),
    GroupEnabled(bool),
}

impl View for ParamValue {
    type V = ParamValueModel;

    open spec fn view(&self) -> ParamValueModel {
        match self {
            ParamValue::Float(v) => ParamValueModel::Float(*v),
            ParamValue::FloatCurve(c) => ParamValueModel::FloatCurve(c@),
            ParamValue::Int(v) => ParamValueModel::Int(*v),
            ParamValue::Bool(v) => ParamValueModel::Bool(*v),
            ParamValue::Color(v) => ParamValueModel::Color(*v),
            ParamValue::Vec2(v) => ParamValueModel::Vec2(*v),
            ParamValue::Enum(v) => ParamValueModel::Enum(v@),
            ParamValue::GroupEnabled(v) => ParamValueModel::GroupEnabled(*v),
        }
    }
}

/// What decides the number that a value stands for at `time`; `None` for a
/// value that is no number.
pub open spec fn float_sample(v: ParamValueModel, time: Rational) -> Option<CurveSample> {
    match v {
        ParamValueModel::Float(v) => Some(CurveSample::Exact(v)),
        ParamValueModel::FloatCurve(c) => Some(curve_sample(c, time)),
        _ => None,
    }
}

impl ParamValue {
    pub fn as_float(&self) -> (r: Option<Scalar>)
        ensures
            r == match self@ {
                ParamValueModel::Float(v) => Some(v),
                _ => None,
            },
            r is Some <==> self@ is Float,
            r matches Some(v) ==> self@ == ParamValueModel::Float(v),
    {
        if let ParamValue::Float(v) = self {
            Some(*v)
        } else {
            None
        }
    }

    /// Samples a number, static or animated, at `time`. `None` for values that
    /// are no numbers.
    pub fn as_float_at(&self, time: Rational) -> (r: Option<CurveSample>)
        ensures
            r == float_sample(self@, time),
    {
        match self {
            ParamValue::Float(v) => Some(CurveSample::Exact(*v)),
            ParamValue::FloatCurve(c) => Some(c.sample_at_time(time)),
            _ => None,
        }
    }

    pub fn as_float_curve(&self) -> (r: Option<&Curve<Scalar>>)
        ensures
            match self@ {
                ParamValueModel::FloatCurve(c) => r is Some && r->0@ == c,
                _ => r is None,
            },
    {
        if let ParamValue::FloatCurve(c) = self {
            Some(c)
        } else {
            None
        }
    }

    pub fn as_int(&self) -> (r: Option<i32>)
        ensures
            r == match self@ {
                ParamValueModel::Int(v) => Some(v),
                _ => None,
            },
            r is Some <==> self@ is Int,
            r matches Some(v) ==> self@ == ParamValueModel::Int(v),
    {
        if let ParamValue::Int(v) = self {
            Some(*v)
        } else {
            None
        }
    }

    pub fn as_bool(&self) -> (r: Option<bool>)
        ensures
            r == match self@ {
                ParamValueModel::Bool(v) => Some(v),
                _ => None,
            },
            r is Some <==> self@ is Bool,
            r matches Some(v) ==> self@ == ParamValueModel::Bool(v),
    {
        if let ParamValue::Bool(v) = self {
            Some(*v)
        } else {
            None
        }
    }

    pub fn as_color(&self) -> (r: Option<Rgba>)
        ensures
            r == match self@ {
                ParamValueModel::Color(v) => Some(v),
                _ => None,
            },
            r is Some <==> self@ is Color,
            r matches Some(v) ==> self@ == ParamValueModel::Color(v),
    {
        if let ParamValue::Color(v) = self {
            Some(*v)
        } else {
            None
        }
    }

    pub fn as_vec2(&self) -> (r: Option<Point>)
        ensures
            r == match self@ {
                ParamValueModel::Vec2(v) => Some(v),
                _ => None,
            },
            r is Some <==> self@ is Vec2,
            r matches Some(v) ==> self@ == ParamValueModel::Vec2(v),
    {
        if let ParamValue::Vec2(v) = self {
            Some(*v)
        } else {
            None
        }
    }

    pub fn as_enum(&self) -> (r: Option<&str>)
        ensures
            match self@ {
                ParamValueModel::Enum(v) => r is Some && r->0@ == v,
                _ => r is None,
            },
    {
        if let ParamValue::Enum(v) = self {
            Some(v.as_str())
        } else {
            None
        }
    }

    pub fn as_group_enabled(&self) -> (r: Option<bool>)
        ensures
            r == match self@ {
                ParamValueModel::GroupEnabled(v) => Some(v),
                _ => None,
            },
            r is Some <==> self@ is GroupEnabled,
            r matches Some(v) ==> self@ == ParamValueModel::GroupEnabled(v),
    {
        if let ParamValue::GroupEnabled(v) = self {
            Some(*v)
        } else {
            None
        }
    }

    /// A copy of this value.
    pub fn duplicate(&self) -> (r: Self)
        ensures
            r@ == self@,
    {
        match self {
            ParamValue::Float(v) => ParamValue::Float(*v),
            ParamValue::FloatCurve(c) => ParamValue::FloatCurve(c.duplicate()),
            ParamValue::Int(v) => ParamValue::Int(*v),
            ParamValue::Bool(v) => ParamValue::Bool(*v),
            ParamValue::Color(v) => ParamValue::Color(*v),
            ParamValue::Vec2(v) => ParamValue::Vec2(*v),
            ParamValue::Enum(v) => ParamValue::Enum(v.clone()),
            ParamValue::GroupEnabled(v) => ParamValue::GroupEnabled(*v),
        }
    }
}

/// Values by dotted id (`"head_switching.height"`), kept in the order of the
/// ids.
#[derive(Debug, PartialEq)]
pub struct ParamValues {
    entries: Vec<(String, ParamValue)>,
}

spec fn keyed(s: Seq<(String, ParamValue)>, id: Seq<char>, i: int) -> bool {
    0 <= i < s.len() && s[i].0@ == id
}

spec fn sorted(s: Seq<(String, ParamValue)>) -> bool {
    forall|i: int, j: int|
        0 <= i < j < s.len() ==> lex_less((#[trigger] s[i]).0@, (#[trigger] s[j]).0@)
}

spec fn entries_map(s: Seq<(String, ParamValue)>) -> Map<Seq<char>, ParamValueModel> {
    Map::new(
        |id: Seq<char>| exists|i: int| keyed(s, id, i),
        |id: Seq<char>| s[choose|i: int| keyed(s, id, i)].1@,
    )
}

proof fn keyed_unique(s: Seq<(String, ParamValue)>, id: Seq<char>, i: int, j: int)
    requires
        sorted(s),
        keyed(s, id, i),
        keyed(s, id, j),
    ensures
        i == j,
{
    lex_less_irreflexive(id);
}

proof fn entries_lookup(s: Seq<(String, ParamValue)>, id: Seq<char>, i: int)
    requires
        sorted(s),
        keyed(s, id, i),
    ensures
        entries_map(s).contains_key(id),
        entries_map(s)[id] == s[i].1@,
{
    let k = choose|k: int| keyed(s, id, k);
    keyed_unique(s, id, i, k);
}

proof fn entries_updated(s: Seq<(String, ParamValue)>, i: int, v: (String, ParamValue))
    requires
        sorted(s),
        keyed(s, v.0@, i),
    ensures
        sorted(s.update(i, v)),
        entries_map(s.update(i, v)) == entries_map(s).insert(v.0@, v.1@),
{
    let t = s.update(i, v);
    assert(sorted(t)) by {
        assert forall|a: int, b: int| 0 <= a < b < t.len() implies lex_less(
            (#[trigger] t[a]).0@,
            (#[trigger] t[b]).0@,
        ) by {
            assert(t[a].0@ == s[a].0@ && t[b].0@ == s[b].0@);
        }
    }
    assert(entries_map(t) =~= entries_map(s).insert(v.0@, v.1@)) by {
        assert forall|id: Seq<char>| entries_map(t).contains_key(id) == #[trigger] entries_map(
            s,
        ).insert(v.0@, v.1@).contains_key(id) by {
            if exists|k: int| keyed(t, id, k) {
                let k = choose|k: int| keyed(t, id, k);
                assert(keyed(s, id, k));
            }
            if exists|k: int| keyed(s, id, k) {
                let k = choose|k: int| keyed(s, id, k);
                assert(keyed(t, id, k));
            }
            if id == v.0@ {
                assert(keyed(t, id, i));
            }
        }
        assert forall|id: Seq<char>| #[trigger]
            entries_map(t).contains_key(id) implies entries_map(t)[id] == entries_map(s).insert(
            v.0@,
            v.1@,
        )[id] by {
            let k = choose|k: int| keyed(t, id, k);
            entries_lookup(t, id, k);
            assert(keyed(s, id, k));
            entries_lookup(s, id, k);
            if id == v.0@ {
                keyed_unique(s, id, i, k);
            } else {
                assert(k != i);
            }
        }
    }
}

proof fn entries_inserted(s: Seq<(String, ParamValue)>, i: int, v: (String, ParamValue))
    requires
        sorted(s),
        0 <= i <= s.len(),
        forall|k: int| 0 <= k < i ==> lex_less((#[trigger] s[k]).0@, v.0@),
        forall|k: int| i <= k < s.len() ==> lex_less(v.0@, (#[trigger] s[k]).0@),
    ensures
        sorted(s.insert(i, v)),
        entries_map(s.insert(i, v)) == entries_map(s).insert(v.0@, v.1@),
{
    let t = s.insert(i, v);
    assert(sorted(t)) by {
        assert forall|a: int, b: int| 0 <= a < b < t.len() implies lex_less(
            (#[trigger] t[a]).0@,
            (#[trigger] t[b]).0@,
        ) by {
            let x = if a < i {
                a
            } else {
                a - 1
            };
            let y = if b < i {
                b
            } else {
                b - 1
            };
            if a == i {
                assert(t[b] == s[b - 1]);
            } else if b == i {
                assert(t[a] == s[a]);
            } else {
                assert(t[a] == s[x] && t[b] == s[y]);
            }
        }
    }
    assert(keyed(t, v.0@, i));
    assert(entries_map(t) =~= entries_map(s).insert(v.0@, v.1@)) by {
        assert forall|id: Seq<char>| entries_map(t).contains_key(id) == #[trigger] entries_map(
            s,
        ).insert(v.0@, v.1@).contains_key(id) by {
            if exists|k: int| keyed(t, id, k) {
                let k = choose|k: int| keyed(t, id, k);
                if k < i {
                    assert(keyed(s, id, k));
                } else if k > i {
                    assert(keyed(s, id, k - 1));
                }
            }
            if exists|k: int| keyed(s, id, k) {
                let k = choose|k: int| keyed(s, id, k);
                if k < i {
                    assert(keyed(t, id, k));
                } else {
                    assert(keyed(t, id, k + 1));
                }
            }
        }
        assert forall|id: Seq<char>| #[trigger]
            entries_map(t).contains_key(id) implies entries_map(t)[id] == entries_map(s).insert(
            v.0@,
            v.1@,
        )[id] by {
            let k = choose|k: int| keyed(t, id, k);
            entries_lookup(t, id, k);
            if id == v.0@ {
                keyed_unique(t, id, i, k);
            } else if k < i {
                assert(keyed(s, id, k));
                entries_lookup(s, id, k);
            } else {
                assert(k != i);
                assert(keyed(s, id, k - 1));
                entries_lookup(s, id, k - 1);
            }
        }
    }
}

impl View for ParamValues {
    type V = Map<Seq<char>, ParamValueModel>;

    closed spec fn view(&self) -> Map<Seq<char>, ParamValueModel> {
        entries_map(self.entries@)
    }
}

impl ParamValues {
    #[verifier::type_invariant]
    spec fn in_id_order(self) -> bool {
        sorted(self.entries@)
    }

    /// No values.
    pub fn new() -> (r: Self)
        ensures
            r@ == Map::<Seq<char>, ParamValueModel>::empty(),
    {
        let r = ParamValues { entries: Vec::new() };
        assert(r@ =~= Map::<Seq<char>, ParamValueModel>::empty());
        r
    }

    fn position(&self, id: &str) -> (r: (bool, usize))
        ensures
            r.0 ==> keyed(self.entries@, id@, r.1 as int),
            !r.0 ==> r.1 <= self.entries.len() && (forall|k: int|
                0 <= k < r.1 ==> lex_less((#[trigger] self.entries@[k]).0@, id@)) && (forall|k: int|
                r.1 <= k < self.entries.len() ==> lex_less(id@, (#[trigger] self.entries@[k]).0@)),
    {
        proof {
            use_type_invariant(self);
        }
        let mut i: usize = 0;
        while i < self.entries.len()
            invariant
                i <= self.entries.len(),
                sorted(self.entries@),
                forall|k: int| 0 <= k < i ==> lex_less((#[trigger] self.entries@[k]).0@, id@),
            decreases self.entries.len() - i,
        {
            if str_eq(&self.entries[i].0, id) {
                return (true, i);
            }
            if str_less(id, &self.entries[i].0) {
                proof {
                    assert forall|k: int| i <= k < self.entries.len() implies lex_less(
                        id@,
                        (#[trigger] self.entries@[k]).0@,
                    ) by {
                        if k > i {
                            assert(lex_less(self.entries@[i as int].0@, self.entries@[k].0@));
                            lex_less_transitive(
                                id@,
                                self.entries@[i as int].0@,
                                self.entries@[k].0@,
                            );
                        }
                    }
                }
                return (false, i);
            }
            proof {
                lex_less_total(self.entries@[i as int].0@, id@);
            }
            i = i + 1;
        }
        (false, i)
    }

    /// The value stored under `id`.
    pub fn get(&self, id: &str) -> (r: Option<&ParamValue>)
        ensures
            r is Some == self@.contains_key(id@),
            r is Some ==> r->0@ == self@[id@],
    {
        proof {
            use_type_invariant(self);
        }
        let (found, at) = self.position(id);
        if found {
            proof {
                entries_lookup(self.entries@, id@, at as int);
            }
            Some(&self.entries[at].1)
        } else {
            proof {
                entries_absent(self.entries@, id@, at as int);
            }
            None
        }
    }

    /// Stores `value` under `id`, in place of any value that was there.
    pub fn set(&mut self, id: String, value: ParamValue)
        ensures
            final(self)@ == old(self)@.insert(id@, value@),
    {
        proof {
            use_type_invariant(&*self);
        }
        let (found, at) = self.position(&id);
        let mut entries: Vec<(String, ParamValue)> = Vec::new();
        std::mem::swap(&mut entries, &mut self.entries);
        let ghost before = entries@;
        if found {
            proof {
                entries_updated(before, at as int, (id, value));
            }
            entries.set(at, (id, value));
        } else {
            proof {
                entries_inserted(before, at as int, (id, value));
            }
            entries.insert(at, (id, value));
        }
        self.entries = entries;
    }

    /// The values with their ids, in the order of the ids.
    pub fn iter(&self) -> (r: &Vec<(String, ParamValue)>)
        ensures
            forall|i: int, j: int|
                0 <= i < j < r.len() ==> lex_less((#[trigger] r@[i]).0@, (#[trigger] r@[j]).0@),
            forall|i: int|
                0 <= i < r.len() ==> self@.contains_key((#[trigger] r@[i]).0@) && self@[r@[i].0@]
                    == r@[i].1@,
            forall|id: Seq<char>| #[trigger]
                self@.contains_key(id) ==> exists|i: int| 0 <= i < r.len() && r@[i].0@ == id,
    {
        proof {
            use_type_invariant(self);
            let s = self.entries@;
            assert forall|i: int| 0 <= i < s.len() implies self@.contains_key((#[trigger] s[i]).0@)
                && self@[s[i].0@] == s[i].1@ by {
                entries_lookup(s, s[i].0@, i);
            }
            assert forall|id: Seq<char>| #[trigger] self@.contains_key(id) implies exists|i: int|
                0 <= i < s.len() && s[i].0@ == id by {
                let k = choose|k: int| keyed(s, id, k);
                assert(0 <= k < s.len() && s[k].0@ == id);
            }
        }
        &self.entries
    }

    /// How many values there are.
    pub fn len(&self) -> (r: usize)
        ensures
            self@.dom().finite(),
            r == self@.len(),
    {
        proof {
            use_type_invariant(self);
            entries_count(self.entries@);
        }
        self.entries.len()
    }

    pub fn is_empty(&self) -> (r: bool)
        ensures
            r == (self@ == Map::<Seq<char>, ParamValueModel>::empty()),
    {
        proof {
            use_type_invariant(self);
            if self.entries@.len() == 0 {
                assert(self@ =~= Map::<Seq<char>, ParamValueModel>::empty());
            } else {
                entries_lookup(self.entries@, self.entries@[0].0@, 0);
            }
        }
        self.entries.is_empty()
    }

    /// A copy of these values.
    pub fn duplicate(&self) -> (r: Self)
        ensures
            r@ == self@,
    {
        proof {
            use_type_invariant(self);
        }
        let mut entries: Vec<(String, ParamValue)> = Vec::new();
        let mut i: usize = 0;
        while i < self.entries.len()
            invariant
                i <= self.entries.len(),
                entries.len() == i,
                forall|k: int|
                    0 <= k < i ==> (#[trigger] entries@[k]).0@ == self.entries@[k].0@
                        && entries@[k].1@ == self.entries@[k].1@,
            decreases self.entries.len() - i,
        {
            entries.push((self.entries[i].0.clone(), self.entries[i].1.duplicate()));
            i = i + 1;
        }
        proof {
            entries_same(self.entries@, entries@);
        }
        ParamValues { entries }
    }

    /// These values with every animated one replaced by what `blend` makes of
    /// its sample at `time`. Other values are unchanged.
    pub fn resolved_at<F: Fn(CurveSample) -> Scalar>(&self, time: Rational, blend: F) -> (r: Self)
        requires
            forall|s: CurveSample| call_requires(blend, (s,)),
        ensures
            r@.dom() == self@.dom(),
            forall|id: Seq<char>| #[trigger]
                self@.contains_key(id) ==> match self@[id] {
                    ParamValueModel::FloatCurve(c) => r@[id] matches ParamValueModel::Float(v)
                        && call_ensures(blend, (curve_sample(c, time),), v),
                    other => r@[id] == other,
                },
    {
        proof {
            use_type_invariant(self);
        }
        let mut entries: Vec<(String, ParamValue)> = Vec::new();
        let mut i: usize = 0;
        while i < self.entries.len()
            invariant
                i <= self.entries.len(),
                entries.len() == i,
                forall|s: CurveSample| call_requires(blend, (s,)),
                forall|k: int|
                    0 <= k < i ==> (#[trigger] entries@[k]).0@ == self.entries@[k].0@
                        && match self.entries@[k].1@ {
                        ParamValueModel::FloatCurve(
                            c,
                        ) => entries@[k].1@ matches ParamValueModel::Float(v) && call_ensures(
                            blend,
                            (curve_sample(c, time),),
                            v,
                        ),
                        other => entries@[k].1@ == other,
                    },
            decreases self.entries.len() - i,
        {
            let value = match &self.entries[i].1 {
                ParamValue::FloatCurve(c) => ParamValue::Float(blend(c.sample_at_time(time))),
                other => other.duplicate(),
            };
            entries.push((self.entries[i].0.clone(), value));
            i = i + 1;
        }
        proof {
            let s = self.entries@;
            let t = entries@;
            entries_same_ids(s, t);
            assert forall|id: Seq<char>| #[trigger] entries_map(s).contains_key(id) implies match entries_map(
                s,
            )[id] {
                ParamValueModel::FloatCurve(c) => entries_map(
                    t,
                )[id] matches ParamValueModel::Float(v) && call_ensures(
                    blend,
                    (curve_sample(c, time),),
                    v,
                ),
                other => entries_map(t)[id] == other,
            } by {
                let k = choose|k: int| keyed(s, id, k);
                assert(t[k].0@ == s[k].0@);
                assert(keyed(t, id, k));
                entries_lookup(s, id, k);
                entries_lookup(t, id, k);
            }
        }
        ParamValues { entries }
    }

    /// Builds a fresh set of values with each parameter at its declared
    /// default.
    pub fn from_manifest(manifest: &EffectManifest) -> (r: Self)
        ensures
            r@ == default_values(manifest.parameters@),
    {
        let mut r = ParamValues::new();
        seed_defaults(&manifest.parameters, "", &mut r);
        proof {
            reveal_strlit("");
            assert(""@ =~= Seq::<char>::empty());
        }
        r
    }

    pub fn float(&self, id: &str) -> (r: Option<Scalar>)
        ensures
            r == match stored(self@, id@) {
                Some(ParamValueModel::Float(v)) => Some(v),
                _ => None,
            },
    {
        match self.get(id) {
            Some(v) => v.as_float(),
            None => None,
        }
    }

    pub fn integer(&self, id: &str) -> (r: Option<i32>)
        ensures
            r == match stored(self@, id@) {
                Some(ParamValueModel::Int(v)) => Some(v),
                _ => None,
            },
    {
        match self.get(id) {
            Some(v) => v.as_int(),
            None => None,
        }
    }

    pub fn bool(&self, id: &str) -> (r: Option<bool>)
        ensures
            r == match stored(self@, id@) {
                Some(ParamValueModel::Bool(v)) => Some(v),
                _ => None,
            },
    {
        match self.get(id) {
            Some(v) => v.as_bool(),
            None => None,
        }
    }

    pub fn color(&self, id: &str) -> (r: Option<Rgba>)
        ensures
            r == match stored(self@, id@) {
                Some(ParamValueModel::Color(v)) => Some(v),
                _ => None,
            },
    {
        match self.get(id) {
            Some(v) => v.as_color(),
            None => None,
        }
    }

    pub fn vec2(&self, id: &str) -> (r: Option<Point>)
        ensures
            r == match stored(self@, id@) {
                Some(ParamValueModel::Vec2(v)) => Some(v),
                _ => None,
            },
    {
        match self.get(id) {
            Some(v) => v.as_vec2(),
            None => None,
        }
    }

    pub fn group_enabled(&self, id: &str) -> (r: Option<bool>)
        ensures
            r == match stored(self@, id@) {
                Some(ParamValueModel::GroupEnabled(v)) => Some(v),
                _ => None,
            },
    {
        match self.get(id) {
            Some(v) => v.as_group_enabled(),
            None => None,
        }
    }

    /// Samples a number, static or animated, at `time`.
    pub fn float_at(&self, id: &str, time: Rational) -> (r: Option<CurveSample>)
        ensures
            r == match stored(self@, id@) {
                Some(v) => float_sample(v, time),
                None => None,
            },
    {
        match self.get(id) {
            Some(v) => v.as_float_at(time),
            None => None,
        }
    }

    pub fn float_curve(&self, id: &str) -> (r: Option<&Curve<Scalar>>)
        ensures
            match stored(self@, id@) {
                Some(ParamValueModel::FloatCurve(c)) => r is Some && r->0@ == c,
                _ => r is None,
            },
    {
        match self.get(id) {
            Some(v) => v.as_float_curve(),
            None => None,
        }
    }

    pub fn enum_str(&self, id: &str) -> (r: Option<&str>)
        ensures
            match stored(self@, id@) {
                Some(ParamValueModel::Enum(v)) => r is Some && r->0@ == v,
                _ => r is None,
            },
    {
        match self.get(id) {
            Some(v) => v.as_enum(),
            None => None,
        }
    }
}

impl Default for ParamValues {
    fn default() -> (r: Self)
        ensures
            r@ == Map::<Seq<char>, ParamValueModel>::empty(),
    {
        ParamValues::new()
    }
}

/// The value stored under `id`, if any.
pub open spec fn stored(m: Map<Seq<char>, ParamValueModel>, id: Seq<char>) -> Option<
    ParamValueModel,
> {
    if m.contains_key(id) {
        Some(m[id])
    } else {
        None
    }
}

proof fn entries_absent(s: Seq<(String, ParamValue)>, id: Seq<char>, at: int)
    requires
        0 <= at <= s.len(),
        forall|k: int| 0 <= k < at ==> lex_less((#[trigger] s[k]).0@, id),
        forall|k: int| at <= k < s.len() ==> lex_less(id, (#[trigger] s[k]).0@),
    ensures
        !entries_map(s).contains_key(id),
{
    lex_less_irreflexive(id);
}

proof fn entries_same_ids(s: Seq<(String, ParamValue)>, t: Seq<(String, ParamValue)>)
    requires
        sorted(s),
        s.len() == t.len(),
        forall|k: int| 0 <= k < s.len() ==> (#[trigger] t[k]).0@ == s[k].0@,
    ensures
        sorted(t),
        entries_map(t).dom() == entries_map(s).dom(),
{
    assert(entries_map(t).dom() =~= entries_map(s).dom()) by {
        assert forall|id: Seq<char>| entries_map(t).dom().contains(id) == #[trigger] entries_map(
            s,
        ).dom().contains(id) by {
            if exists|k: int| keyed(t, id, k) {
                let k = choose|k: int| keyed(t, id, k);
                assert(keyed(s, id, k));
            }
            if exists|k: int| keyed(s, id, k) {
                let k = choose|k: int| keyed(s, id, k);
                assert(t[k].0@ == s[k].0@);
                assert(keyed(t, id, k));
            }
        }
    }
}

proof fn entries_same(s: Seq<(String, ParamValue)>, t: Seq<(String, ParamValue)>)
    requires
        sorted(s),
        s.len() == t.len(),
        forall|k: int| 0 <= k < s.len() ==> (#[trigger] t[k]).0@ == s[k].0@ && t[k].1@ == s[k].1@,
    ensures
        sorted(t),
        entries_map(t) == entries_map(s),
{
    entries_same_ids(s, t);
    assert(entries_map(t) =~= entries_map(s)) by {
        assert forall|id: Seq<char>| #[trigger]
            entries_map(s).contains_key(id) implies entries_map(t)[id] == entries_map(s)[id] by {
            let k = choose|k: int| keyed(s, id, k);
            assert(t[k].0@ == s[k].0@);
            assert(keyed(t, id, k));
            entries_lookup(s, id, k);
            entries_lookup(t, id, k);
        }
    }
}

proof fn entries_count(s: Seq<(String, ParamValue)>)
    requires
        sorted(s),
    ensures
        entries_map(s).dom().finite(),
        entries_map(s).len() == s.len(),
    decreases s.len(),
{
    if s.len() == 0 {
        assert(entries_map(s).dom() =~= Set::<Seq<char>>::empty());
    } else {
        let init = s.drop_last();
        let v = s.last();
        entries_count(init);
        lex_less_irreflexive(v.0@);
        entries_absent(init, v.0@, init.len() as int);
        entries_inserted(init, init.len() as int, v);
        assert(init.insert(init.len() as int, v) =~= s);
    }
}

/// The variant that an enum parameter starts with: its default if that is one
/// of its variants, else the first variant, else nothing.
pub open spec fn enum_default(variants: Seq<EnumVariant>, default: Seq<char>) -> Seq<char> {
    if (exists|i: int| 0 <= i < variants.len() && (#[trigger] variants[i]).id@ == default) {
        default
    } else if variants.len() > 0 {
        variants[0].id@
    } else {
        Seq::empty()
    }
}

/// `m` with the defaults of `params` stored under `prefix`, in declaration
/// order. A plain group stores nothing of its own.
pub open spec fn seeded(
    params: Seq<ParamDecl>,
    prefix: Seq<char>,
    m: Map<Seq<char>, ParamValueModel>,
) -> Map<Seq<char>, ParamValueModel>
    decreases params,
{
    if params.len() == 0 {
        m
    } else {
        let n = params.len() - 1;
        let m1 = seeded(params.subrange(0, n), prefix, m);
        let id = dotted(prefix, params[n].id@);
        match params[n].kind {
            ParamKind::Float { default, .. } => m1.insert(id, ParamValueModel::Float(default)),
            ParamKind::Int { default, .. } => m1.insert(id, ParamValueModel::Int(default)),
            ParamKind::Bool { default } => m1.insert(id, ParamValueModel::Bool(default)),
            ParamKind::Color { default } => m1.insert(id, ParamValueModel::Color(default)),
            ParamKind::Vec2 { default } => m1.insert(id, ParamValueModel::Vec2(default)),
            ParamKind::Enum { variants, default } => m1.insert(
                id,
                ParamValueModel::Enum(enum_default(variants@, default@)),
            ),
            ParamKind::Group { parameters } => seeded(parameters@, id, m1),
            ParamKind::OptionalGroup { default_enabled, parameters } => seeded(
                parameters@,
                id,
                m1.insert(id, ParamValueModel::GroupEnabled(default_enabled)),
            ),
        }
    }
}

/// The declared defaults of `params`.
pub open spec fn default_values(params: Seq<ParamDecl>) -> Map<Seq<char>, ParamValueModel> {
    seeded(params, Seq::empty(), Map::empty())
}

/// Seeding keeps what was stored and stores values only under declared ids.
pub proof fn seeded_under_declared_ids(
    params: Seq<ParamDecl>,
    prefix: Seq<char>,
    m: Map<Seq<char>, ParamValueModel>,
    id: Seq<char>,
)
    ensures
        m.contains_key(id) ==> seeded(params, prefix, m).contains_key(id),
        seeded(params, prefix, m).contains_key(id) ==> m.contains_key(id) || all_ids(
            params,
            prefix,
        ).contains(id),
    decreases params,
{
    if params.len() > 0 {
        let n = params.len() - 1;
        let init = params.subrange(0, n);
        let m1 = seeded(init, prefix, m);
        let path = dotted(prefix, params[n].id@);
        let own = all_ids(init, prefix).push(path);
        seeded_under_declared_ids(init, prefix, m, id);
        assert(own[own.len() - 1] == path);
        if all_ids(init, prefix).contains(id) {
            let k = choose|k: int|
                0 <= k < all_ids(init, prefix).len() && all_ids(init, prefix)[k] == id;
            assert(own[k] == id);
        }
        match params[n].kind {
            ParamKind::Group { parameters } => {
                let rest = all_ids(parameters@, path);
                seeded_under_declared_ids(parameters@, path, m1, id);
                contains_either(own, rest, id);
            },
            ParamKind::OptionalGroup { default_enabled, parameters } => {
                let rest = all_ids(parameters@, path);
                seeded_under_declared_ids(
                    parameters@,
                    path,
                    m1.insert(path, ParamValueModel::GroupEnabled(default_enabled)),
                    id,
                );
                contains_either(own, rest, id);
            },
            _ => {},
        }
    }
}

proof fn contains_either(a: Seq<Seq<char>>, b: Seq<Seq<char>>, x: Seq<char>)
    ensures
        (a + b).contains(x) == (a.contains(x) || b.contains(x)),
{
    if a.contains(x) {
        let k = choose|k: int| 0 <= k < a.len() && a[k] == x;
        assert((a + b)[k] == x);
    }
    if b.contains(x) {
        let k = choose|k: int| 0 <= k < b.len() && b[k] == x;
        assert((a + b)[a.len() + k] == x);
    }
}

fn chosen_variant(variants: &Vec<EnumVariant>, default: &String) -> (r: String)
    ensures
        r@ == enum_default(variants@, default@),
{
    let mut i: usize = 0;
    while i < variants.len()
        invariant
            i <= variants.len(),
            forall|k: int| 0 <= k < i ==> (#[trigger] variants@[k]).id@ != default@,
        decreases variants.len() - i,
    {
        if str_eq(&variants[i].id, default) {
            assert(variants@[i as int].id@ == default@);
            return default.clone();
        }
        i = i + 1;
    }
    if variants.len() > 0 {
        variants[0].id.clone()
    } else {
        let none = String::new();
        assert(none@ =~= Seq::<char>::empty());
        none
    }
}

fn seed_defaults(params: &Vec<ParamDecl>, prefix: &str, out: &mut ParamValues)
    ensures
        final(out)@ == seeded(params@, prefix@, old(out)@),
    decreases params@,
{
    let ghost start = out@;
    let mut n: usize = 0;
    while n < params.len()
        invariant
            n <= params.len(),
            out@ == seeded(params@.subrange(0, n as int), prefix@, start),
        decreases params.len() - n,
    {
        let ghost head = params@.subrange(0, n + 1);
        proof {
            assert(head.subrange(0, n as int) =~= params@.subrange(0, n as int));
            assert(head[n as int] == params@[n as int]);
        }
        let p = &params[n];
        let id = dotted_path(prefix, &p.id);
        match &p.kind {
            ParamKind::Float { default, .. } => out.set(id, ParamValue::Float(*default)),
            ParamKind::Int { default, .. } => out.set(id, ParamValue::Int(*default)),
            ParamKind::Bool { default } => out.set(id, ParamValue::Bool(*default)),
            ParamKind::Color { default } => out.set(id, ParamValue::Color(*default)),
            ParamKind::Vec2 { default } => out.set(id, ParamValue::Vec2(*default)),
            ParamKind::Enum { variants, default } => {
                let chosen = chosen_variant(variants, default);
                out.set(id, ParamValue::Enum(chosen));
            },
            ParamKind::Group { parameters } => seed_defaults(parameters, &id, out),
            ParamKind::OptionalGroup { default_enabled, parameters } => {
                out.set(id.clone(), ParamValue::GroupEnabled(*default_enabled));
                seed_defaults(parameters, &id, out);
            },
        }
        n = n + 1;
    }
    assert(params@.subrange(0, n as int) =~= params@);
}

/// A value that is a plain number is the same at all times, one with a curve
/// is what the curve says, and others are no number.
pub proof fn numbers_are_sampled(
    v: Scalar,
    c: CurveModel<Scalar>,
    time: Rational,
    other: ParamValueModel,
)
    ensures
        float_sample(ParamValueModel::Float(v), time) == Some(CurveSample::Exact(v)),
        float_sample(ParamValueModel::FloatCurve(c), time) == Some(curve_sample(c, time)),
        float_sample(ParamValueModel::FloatCurve(CurveModel::Static(v)), time) == float_sample(
            ParamValueModel::Float(v),
            time,
        ),
        !(other is Float || other is FloatCurve) ==> float_sample(other, time) is None,
{
}

/// The default of a choice is one of its variants: the declared one if that is
/// a variant, and the first otherwise.
pub proof fn default_is_a_variant(variants: Seq<EnumVariant>, default: Seq<char>, i: int)
    requires
        0 <= i < variants.len(),
    ensures
        exists|k: int|
            0 <= k < variants.len() && (#[trigger] variants[k]).id@ == enum_default(
                variants,
                default,
            ),
        variants[i].id@ == default ==> enum_default(variants, default) == default,
        (forall|k: int| 0 <= k < variants.len() ==> (#[trigger] variants[k]).id@ != default)
            ==> enum_default(variants, default) == variants[0].id@,
{
    if variants[i].id@ == default {
        assert(enum_default(variants, default) == default);
    }
    if !(exists|k: int| 0 <= k < variants.len() && (#[trigger] variants[k]).id@ == default) {
        assert(variants[0].id@ == enum_default(variants, default));
    }
}

/// Parameters are given their defaults one after the other.
pub proof fn defaults_follow_each_other(
    a: Seq<ParamDecl>,
    b: Seq<ParamDecl>,
    prefix: Seq<char>,
    m: Map<Seq<char>, ParamValueModel>,
)
    ensures
        seeded(a + b, prefix, m) == seeded(b, prefix, seeded(a, prefix, m)),
    decreases b.len(),
{
    if b.len() == 0 {
        assert(a + b =~= a);
    } else {
        let n = b.len() - 1;
        let init = b.subrange(0, n);
        assert((a + b).subrange(0, a.len() + n) =~= a + init);
        assert((a + b)[a.len() + n] == b[n]);
        defaults_follow_each_other(a, init, prefix, m);
    }
}

/// A parameter gets the default that is declared for it, under its own id, and
/// other ids keep their values.
pub proof fn declared_default_is_stored(
    p: ParamDecl,
    prefix: Seq<char>,
    m: Map<Seq<char>, ParamValueModel>,
    other: Seq<char>,
)
    requires
        other != dotted(prefix, p.id@),
    ensures
        ({
            let after = seeded(seq![p], prefix, m);
            let held = stored(after, dotted(prefix, p.id@));
            &&& match p.kind {
                ParamKind::Float { default, .. } => held == Some(ParamValueModel::Float(default)),
                ParamKind::Int { default, .. } => held == Some(ParamValueModel::Int(default)),
                ParamKind::Bool { default } => held == Some(ParamValueModel::Bool(default)),
                ParamKind::Color { default } => held == Some(ParamValueModel::Color(default)),
                ParamKind::Vec2 { default } => held == Some(ParamValueModel::Vec2(default)),
                ParamKind::Enum { variants, default } => held == Some(
                    ParamValueModel::Enum(enum_default(variants@, default@)),
                ),
                _ => true,
            }
            &&& !(p.kind is Group || p.kind is OptionalGroup) ==> stored(after, other) == stored(
                m,
                other,
            )
        }),
{
    assert(seq![p].subrange(0, 0) =~= Seq::<ParamDecl>::empty());
    reveal_with_fuel(seeded, 2);
    assert(seeded(seq![p].subrange(0, 0), prefix, m) == m);
}

/// A group gives its parameters their defaults under its own id. One that can
/// be turned off is on or off as it is declared.
pub proof fn groups_are_seeded_under_their_id(
    p: ParamDecl,
    prefix: Seq<char>,
    m: Map<Seq<char>, ParamValueModel>,
)
    ensures
        ({
            let id = dotted(prefix, p.id@);
            let after = seeded(seq![p], prefix, m);
            match p.kind {
                ParamKind::Group { parameters } => after == seeded(parameters@, id, m),
                ParamKind::OptionalGroup { default_enabled, parameters } => {
                    &&& after == seeded(
                        parameters@,
                        id,
                        m.insert(id, ParamValueModel::GroupEnabled(default_enabled)),
                    )
                    &&& parameters@.len() == 0 ==> stored(after, id) == Some(
                        ParamValueModel::GroupEnabled(default_enabled),
                    )
                },
                _ => true,
            }
        }),
{
    assert(seq![p].subrange(0, 0) =~= Seq::<ParamDecl>::empty());
    assert(seeded(seq![p].subrange(0, 0), prefix, m) == m);
}

} // verus!
