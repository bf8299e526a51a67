//! Edits of animated parameters: the keyframe under the playhead, and what
//! the curve widget does.

use crate::model::curve::{
    copy_keyframes, curve_sample, in_time_order, insert_stable_where, last_at_or_before,
    proper_times, scalar_keyframes_view, sort_keyframes, sorted_by_time, sorting_keeps_and_orders,
    sorting_sorted_is_identity, Curve, CurveModel, CurveSample, InterpKind, Keyframe,
};
use crate::model::time::{
    before, not_before_transitive, same_instant, same_instant_is_symmetric, Rational,
};
use crate::scalar::Scalar;
use crate::seqs::{first_where, first_where_is_first};
use vstd::prelude::*;

verus! {

/// What the curve widget does to a curve.
#[derive(Clone, Copy, Debug, PartialEq, Eq, Structural)]
#[allow(inconsistent_fields)]
pub enum CurveAction {
    AddAt { time: Rational, value: Scalar },
    Delete { index: usize },
    SetInterp { index: usize, interp: InterpKind },
    Move { index: usize, time: Rational, value: Scalar },
}

/// A keyframe that leads to the next one in a straight line.
pub open spec fn linear(t: Rational, v: Scalar) -> Keyframe<Scalar> {
    Keyframe { t, v, interp: InterpKind::Linear }
}

/// The keyframes of a curve; a constant has one, at `seed`.
pub open spec fn curve_keyframes(c: CurveModel<Scalar>, seed: Rational) -> Seq<Keyframe<Scalar>> {
    match c {
        CurveModel::Static(v) => seq![linear(seed, v)],
        CurveModel::Animated(k) => k,
    }
}

/// The keyframes of a curve; a constant has one, at `seed`.
pub fn keyframes_of(c: &Curve<Scalar>, seed: Rational) -> (r: Vec<Keyframe<Scalar>>)
    ensures
        r@ == curve_keyframes(c@, seed),
{
    broadcast use scalar_keyframes_view;

    match c {
        Curve::Static(v) => {
            let mut k: Vec<Keyframe<Scalar>> = Vec::new();
            k.push(Keyframe { t: seed, v: *v, interp: InterpKind::Linear });
            assert(k@ =~= seq![linear(seed, *v)]);
            k
        },
        Curve::Animated(k) => copy_keyframes(k),
    }
}

/// The test for a keyframe at `time`.
pub open spec fn is_at(time: Rational) -> spec_fn(Keyframe<Scalar>) -> bool {
    |k: Keyframe<Scalar>| same_instant(k.t, time)
}

/// `kfs` with `value` at `time`: the keyframe there gets it, or a new one is
/// put in order.
pub open spec fn with_value_at(
    kfs: Seq<Keyframe<Scalar>>,
    time: Rational,
    value: Scalar,
) -> Seq<Keyframe<Scalar>> {
    match first_where(kfs, is_at(time), 0) {
        Some(i) => kfs.update(i, Keyframe { v: value, ..kfs[i] }),
        None => sorted_by_time(kfs.push(linear(time, value))),
    }
}

/// Sets the value of a curve at `time`: changes the keyframe there, or adds
/// one. The curve is animated afterwards.
pub fn set_keyframe_at(curve: &Curve<Scalar>, time: Rational, value: Scalar) -> (r: Curve<Scalar>)
    ensures
        r@ == CurveModel::Animated(with_value_at(curve_keyframes(curve@, time), time, value)),
{
    broadcast use scalar_keyframes_view;

    let mut kfs = keyframes_of(curve, time);
    let ghost start = kfs@;
    let mut i: usize = 0;
    while i < kfs.len()
        invariant
            i <= kfs.len(),
            kfs@ == start,
            start == curve_keyframes(curve@, time),
            first_where(start, is_at(time), 0) == first_where(start, is_at(time), i as int),
        decreases kfs.len() - i,
    {
        if kfs[i].t.is_same_instant(time) {
            let k = kfs[i];
            kfs.set(i, Keyframe { t: k.t, v: value, interp: k.interp });
            proof {
                scalar_keyframes_view(kfs@);
            }
            return Curve::Animated(kfs);
        }
        i = i + 1;
    }
    kfs.push(Keyframe { t: time, v: value, interp: InterpKind::Linear });
    let sorted = sort_keyframes(&kfs);
    Curve::Animated(sorted)
}

/// `kfs` after `action`. Deleting never takes the last keyframe; adding and
/// moving put the keyframes back in order.
pub open spec fn after_curve_action(kfs: Seq<Keyframe<Scalar>>, action: CurveAction) -> Seq<
    Keyframe<Scalar>,
> {
    match action {
        CurveAction::AddAt { time, value } => sorted_by_time(kfs.push(linear(time, value))),
        CurveAction::Delete { index } => if kfs.len() > 1 && index < kfs.len() {
            kfs.remove(index as int)
        } else {
            kfs
        },
        CurveAction::SetInterp { index, interp } => if index < kfs.len() {
            kfs.update(index as int, Keyframe { interp, ..kfs[index as int] })
        } else {
            kfs
        },
        CurveAction::Move { index, time, value } => sorted_by_time(
            if index < kfs.len() {
                kfs.update(index as int, Keyframe { t: time, v: value, ..kfs[index as int] })
            } else {
                kfs
            },
        ),
    }
}

/// Applies what the curve widget did. The curve is animated afterwards; a
/// constant starts out as one keyframe at the beginning.
pub fn apply_curve_action(curve: &Curve<Scalar>, action: CurveAction) -> (r: Curve<Scalar>)
    ensures
        r@ == CurveModel::Animated(
            after_curve_action(curve_keyframes(curve@, Rational { num: 0, den: 30 }), action),
        ),
{
    broadcast use scalar_keyframes_view;

    let mut kfs = keyframes_of(curve, Rational::new(0, 30));
    match action {
        CurveAction::AddAt { time, value } => {
            kfs.push(Keyframe { t: time, v: value, interp: InterpKind::Linear });
            let sorted = sort_keyframes(&kfs);
            Curve::Animated(sorted)
        },
        CurveAction::Delete { index } => {
            if kfs.len() > 1 && index < kfs.len() {
                kfs.remove(index);
            }
            Curve::Animated(kfs)
        },
        CurveAction::SetInterp { index, interp } => {
            if index < kfs.len() {
                let k = kfs[index];
                kfs.set(index, Keyframe { t: k.t, v: k.v, interp });
            }
            Curve::Animated(kfs)
        },
        CurveAction::Move { index, time, value } => {
            if index < kfs.len() {
                let k = kfs[index];
                kfs.set(index, Keyframe { t: time, v: value, interp: k.interp });
            }
            let sorted = sort_keyframes(&kfs);
            Curve::Animated(sorted)
        },
    }
}

/// A curve with keyframes keeps at least one, whatever is done to it.
pub proof fn keyframes_are_never_lost(
    kfs: Seq<Keyframe<Scalar>>,
    action: CurveAction,
    time: Rational,
    value: Scalar,
)
    requires
        kfs.len() > 0,
    ensures
        after_curve_action(kfs, action).len() > 0,
        with_value_at(kfs, time, value).len() > 0,
{
    first_where_is_first(kfs, is_at(time), 0);
    crate::model::curve::sorting_keeps_and_orders(kfs.push(linear(time, value)));
    match action {
        CurveAction::AddAt { time, value } => crate::model::curve::sorting_keeps_and_orders(
            kfs.push(linear(time, value)),
        ),
        CurveAction::Move { index, time, value } => crate::model::curve::sorting_keeps_and_orders(
            if index < kfs.len() {
                kfs.update(index as int, Keyframe { t: time, v: value, ..kfs[index as int] })
            } else {
                kfs
            },
        ),
        _ => {},
    }
}

/// Whether each keyframe comes before the next.
pub open spec fn strictly_ordered(kfs: Seq<Keyframe<Scalar>>) -> bool {
    forall|i: int, j: int| 0 <= i < j < kfs.len() ==> before(#[trigger] kfs[i].t, #[trigger] kfs[j].t)
}

proof fn bracketed_at(kfs: Seq<Keyframe<Scalar>>, time: Rational, n: int)
    requires
        0 <= n < kfs.len(),
        !before(time, kfs[n].t),
        forall|j: int| n < j < kfs.len() ==> before(time, #[trigger] kfs[j].t),
    ensures
        last_at_or_before(kfs, time) == n,
    decreases kfs.len(),
{
    if n < kfs.len() - 1 {
        assert(before(time, kfs[kfs.len() - 1].t));
        bracketed_at(kfs.drop_last(), time, n);
    }
}

/// A value that was set at a time is what the curve starts from at that time:
/// the sample there is the value, or a blend that begins with it. This holds
/// for keyframes in strict order none of which is almost, but not quite, at
/// that time.
pub proof fn set_value_is_sampled(kfs: Seq<Keyframe<Scalar>>, time: Rational, value: Scalar)
    requires
        strictly_ordered(kfs),
        proper_times(kfs),
        time.den > 0,
        kfs.len() < usize::MAX,
        forall|i: int|
            0 <= i < kfs.len() && same_instant((#[trigger] kfs[i]).t, time) ==> !before(
                kfs[i].t,
                time,
            ) && !before(time, kfs[i].t),
    ensures
        match curve_sample(CurveModel::Animated(with_value_at(kfs, time, value)), time) {
            CurveSample::Exact(v) => v == value,
            CurveSample::Blend { from, .. } => from.v == value && !before(from.t, time) && !before(
                time,
                from.t,
            ),
        },
{
    let after = with_value_at(kfs, time, value);
    first_where_is_first(kfs, is_at(time), 0);
    match first_where(kfs, is_at(time), 0) {
        Some(n) => {
            assert(same_instant(kfs[n].t, time));
            assert forall|j: int| n < j < after.len() implies before(time, #[trigger] after[j].t) by {
                assert(after[j] == kfs[j]);
                assert(before(kfs[n].t, kfs[j].t));
                if !before(time, kfs[j].t) {
                    assert(kfs[n].t.den != 0 && kfs[j].t.den != 0);
                    not_before_transitive(kfs[j].t, time, kfs[n].t);
                }
            }
            bracketed_at(after, time, n);
            assert(after[n].v == value);
        },
        None => {
            let k = linear(time, value);
            assert(in_time_order(kfs)) by {
                assert forall|i: int, j: int| 0 <= i <= j < kfs.len() implies !before(
                    #[trigger] kfs[j].t,
                    #[trigger] kfs[i].t,
                ) by {
                    if i < j {
                        assert(before(kfs[i].t, kfs[j].t));
                    }
                }
            }
            sorting_sorted_is_identity(kfs);
            assert(kfs.push(k).drop_last() =~= kfs);
            let n = insert_stable_where(kfs, k);
            assert(after == kfs.insert(n, k));
            assert forall|j: int| n < j < after.len() implies before(time, #[trigger] after[j].t) by {
                assert(after[j] == kfs[j - 1]);
            }
            bracketed_at(after, time, n);
        },
    }
}

/// Adding a keyframe keeps the others as they are.
pub proof fn added_keyframe_joins_the_others(
    kfs: Seq<Keyframe<Scalar>>,
    time: Rational,
    value: Scalar,
)
    ensures
        ({
            let after = after_curve_action(kfs, CurveAction::AddAt { time, value });
            &&& after.len() == kfs.len() + 1
            &&& after.to_multiset() == kfs.to_multiset().insert(
                (Keyframe { t: time, v: value, interp: InterpKind::Linear }),
            )
        }),
{
    broadcast use vstd::seq_lib::group_to_multiset_ensures;

    sorting_keeps_and_orders(kfs.push(linear(time, value)));
}

/// Deleting takes that keyframe out, unless it is the only one, and keeps the
/// others in order.
pub proof fn deleted_keyframe_is_taken_out(kfs: Seq<Keyframe<Scalar>>, index: usize)
    requires
        index < kfs.len(),
    ensures
        kfs.len() > 1 ==> after_curve_action(kfs, CurveAction::Delete { index }) == kfs.take(
            index as int,
        ) + kfs.skip(index + 1),
        kfs.len() == 1 ==> after_curve_action(kfs, CurveAction::Delete { index }) == kfs,
{
    assert(kfs.remove(index as int) =~= kfs.take(index as int) + kfs.skip(index + 1));
}

/// Another interpolation changes neither the time nor the value of its
/// keyframe, nor any other keyframe.
pub proof fn interpolation_is_set_alone(
    kfs: Seq<Keyframe<Scalar>>,
    index: usize,
    interp: InterpKind,
    j: int,
)
    requires
        index < kfs.len(),
        0 <= j < kfs.len(),
        j != index,
    ensures
        ({
            let after = after_curve_action(kfs, CurveAction::SetInterp { index, interp });
            &&& after.len() == kfs.len()
            &&& after[index as int].interp == interp
            &&& after[index as int].t == kfs[index as int].t
            &&& after[index as int].v == kfs[index as int].v
            &&& after[j] == kfs[j]
        }),
{
}

/// A moved keyframe has the new time and value and keeps its interpolation;
/// the others stay as they are.
pub proof fn moved_keyframe_keeps_its_interpolation(
    kfs: Seq<Keyframe<Scalar>>,
    index: usize,
    time: Rational,
    value: Scalar,
)
    requires
        index < kfs.len(),
    ensures
        ({
            let after = after_curve_action(kfs, CurveAction::Move { index, time, value });
            let was = kfs[index as int];
            &&& after.len() == kfs.len()
            &&& after.to_multiset() == kfs.to_multiset().remove(was).insert(
                (Keyframe { t: time, v: value, interp: was.interp }),
            )
        }),
{
    let was = kfs[index as int];
    let moved = kfs.update(index as int, Keyframe { t: time, v: value, ..was });
    sorting_keeps_and_orders(moved);
    vstd::seq_lib::to_multiset_update(kfs, index as int, Keyframe { t: time, v: value, ..was });
    assert(moved.to_multiset() == kfs.to_multiset().insert(
        Keyframe { t: time, v: value, ..was },
    ).remove(was));
    broadcast use vstd::seq_lib::group_to_multiset_ensures;

    assert(kfs.to_multiset().count(was) > 0);
    assert(after_curve_action(kfs, CurveAction::Move { index, time, value }).to_multiset()
        =~= kfs.to_multiset().remove(was).insert(
        (Keyframe { t: time, v: value, interp: was.interp }),
    ));
}

/// Setting a value where there is a keyframe changes that value only. The
/// first change of a constant leaves one keyframe, with that value.
pub proof fn set_value_keeps_the_keyframe(
    kfs: Seq<Keyframe<Scalar>>,
    time: Rational,
    value: Scalar,
    old_value: Scalar,
    i: int,
    j: int,
)
    requires
        first_where(kfs, is_at(time), 0) == Some(i),
        0 <= j < kfs.len(),
        j != i,
        time.den > 0,
    ensures
        with_value_at(kfs, time, value).len() == kfs.len(),
        with_value_at(kfs, time, value)[i].v == value,
        with_value_at(kfs, time, value)[i].t == kfs[i].t,
        with_value_at(kfs, time, value)[i].interp == kfs[i].interp,
        with_value_at(kfs, time, value)[j] == kfs[j],
        same_instant(kfs[i].t, time),
        with_value_at(curve_keyframes(CurveModel::Static(old_value), time), time, value) == seq![
            Keyframe { t: time, v: value, interp: InterpKind::Linear },
        ],
{
    first_where_is_first(kfs, is_at(time), 0);
    let one = curve_keyframes(CurveModel::Static(old_value), time);
    same_instant_is_symmetric(time, time);
    assert(is_at(time)(one[0]));
    assert(with_value_at(one, time, value) =~= seq![
        Keyframe { t: time, v: value, interp: InterpKind::Linear },
    ]);
}

/// An edit of a keyframe that is not there changes no keyframe.
pub proof fn edits_of_missing_keyframes_change_nothing(
    kfs: Seq<Keyframe<Scalar>>,
    index: usize,
    interp: InterpKind,
    time: Rational,
    value: Scalar,
)
    requires
        index >= kfs.len(),
    ensures
        after_curve_action(kfs, CurveAction::Delete { index }) == kfs,
        after_curve_action(kfs, CurveAction::SetInterp { index, interp }) == kfs,
        after_curve_action(kfs, CurveAction::Move { index, time, value }).to_multiset()
            == kfs.to_multiset(),
        in_time_order(kfs) && proper_times(kfs) ==> after_curve_action(
            kfs,
            CurveAction::Move { index, time, value },
        ) == kfs,
{
    sorting_keeps_and_orders(kfs);
    if in_time_order(kfs) && proper_times(kfs) {
        sorting_sorted_is_identity(kfs);
    }
}

} // verus!
