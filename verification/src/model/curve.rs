//! Value-or-keyframed-curve.

use crate::model::time::{before, Rational};
use crate::scalar::{zero, Scalar};
use vstd::prelude::*;

verus! {

/// How a keyframe leads to the next one.
#[derive(Clone, Copy, Debug, PartialEq, Eq, Structural, Hash)]
pub enum InterpKind {
    Hold,
    Linear,
    EaseIn,
    EaseOut,
    EaseInOut,
}

/// A value pinned to a time.
#[derive(Clone, Copy, Debug, PartialEq, Eq, Structural)]
pub struct Keyframe<T> {
    pub t: Rational,
    pub v: T,
    pub interp: InterpKind,
}

/// A constant, or a list of keyframes.
#[derive(Clone, Debug, PartialEq)]
pub enum Curve<T> {
    Static(T),
    Animated(Vec<Keyframe<T>>),
}

/// What a curve holds, as a mathematical value.
pub enum CurveModel<T> {
    Static(T),
    Animated(Seq<Keyframe<T>>),
}

impl<T: View> View for Curve<T> {
    type V = CurveModel<T::V>;

    open spec fn view(&self) -> CurveModel<T::V> {
        match self {
            Curve::Static(v) => CurveModel::Static(v@),
            Curve::Animated(k) => CurveModel::Animated(keyframes_view(k@)),
        }
    }
}

/// Keyframes with each value replaced by its view.
pub open spec fn keyframes_view<T: View>(s: Seq<Keyframe<T>>) -> Seq<Keyframe<T::V>> {
    s.map_values(|k: Keyframe<T>| Keyframe { t: k.t, v: k.v@, interp: k.interp })
}

/// Keyframes of plain numbers are their own view.
pub broadcast proof fn scalar_keyframes_view(s: Seq<Keyframe<Scalar>>)
    ensures
        #[trigger] keyframes_view(s) == s,
{
    assert(keyframes_view(s) =~= s);
}

impl<T: Clone> Curve<T> {
    /// A clone of the value of a constant curve, which is the same at every
    /// frame.
    pub fn sample_at(&self, _frame: u32) -> (r: T)
        requires
            self is Static,
        ensures
            call_ensures(T::clone, (&self->Static_0,), r),
    {
        match self {
            Curve::Static(v) => v.clone(),
            Curve::Animated(_) => vstd::pervasive::unreached(),
        }
    }
}

impl<T: Default> Default for Curve<T> {
    fn default() -> (r: Self)
        ensures
            r is Static,
            call_ensures(T::default, (), r->Static_0),
    {
        Curve::Static(T::default())
    }
}

/// The position of the last keyframe at or before `time`; `-1` if there is none.
pub open spec fn last_at_or_before<T>(kfs: Seq<Keyframe<T>>, time: Rational) -> int
    decreases kfs.len(),
{
    if kfs.len() == 0 {
        -1
    } else if !before(time, kfs.last().t) {
        kfs.len() - 1
    } else {
        last_at_or_before(kfs.drop_last(), time)
    }
}

/// Where a time falls among keyframes.
#[derive(Clone, Copy, Debug, PartialEq, Eq, Structural)]
pub enum Segment {
    /// The value of one keyframe holds.
    At { index: usize },
    /// Between keyframe `left` and the one after it.
    Between { left: usize },
}

/// Where `time` falls among `kfs`: before the first keyframe its value holds,
/// from the last one on its value does; in between, a `Hold` keyframe keeps
/// its value up to the next one. No keyframes give no segment.
pub open spec fn segment<T>(kfs: Seq<Keyframe<T>>, time: Rational) -> Option<Segment> {
    let i = last_at_or_before(kfs, time);
    if kfs.len() == 0 {
        None
    } else if i < 0 {
        Some(Segment::At { index: 0 })
    } else if i == kfs.len() - 1 || kfs[i].interp == InterpKind::Hold {
        Some(Segment::At { index: i as usize })
    } else {
        Some(Segment::Between { left: i as usize })
    }
}

/// A time that falls between two keyframes is not before the left one and is
/// before the right one.
pub proof fn segment_brackets_time<T>(kfs: Seq<Keyframe<T>>, time: Rational)
    requires
        kfs.len() <= usize::MAX,
    ensures
        last_at_or_before(kfs, time) < kfs.len(),
        segment(kfs, time) matches Some(Segment::Between { left }) ==> left + 1 < kfs.len()
            && !before(time, kfs[left as int].t) && before(time, kfs[left + 1].t),
    decreases kfs.len(),
{
    last_at_or_before_bounds(kfs, time);
}

pub proof fn last_at_or_before_bounds<T>(kfs: Seq<Keyframe<T>>, time: Rational)
    ensures
        -1 <= last_at_or_before(kfs, time) < kfs.len(),
        last_at_or_before(kfs, time) >= 0 ==> !before(
            time,
            kfs[last_at_or_before(kfs, time)].t,
        ),
        forall|j: int| last_at_or_before(kfs, time) < j < kfs.len() ==> before(time, #[trigger] kfs[j].t),
    decreases kfs.len(),
{
    if kfs.len() > 0 && before(time, kfs.last().t) {
        last_at_or_before_bounds(kfs.drop_last(), time);
        assert forall|j: int| last_at_or_before(kfs, time) < j < kfs.len() implies before(
            time,
            #[trigger] kfs[j].t,
        ) by {
            if j < kfs.len() - 1 {
                assert(kfs.drop_last()[j] == kfs[j]);
            }
        }
    }
}

/// Where `time` falls among `kfs`.
pub fn segment_at<T>(kfs: &Vec<Keyframe<T>>, time: Rational) -> (r: Option<Segment>)
    ensures
        r == segment(kfs@, time),
{
    if kfs.len() == 0 {
        return None;
    }
    let mut n: usize = kfs.len();
    assert(kfs@.take(n as int) =~= kfs@);
    while n > 0 && time.is_before(kfs[n - 1].t)
        invariant
            n <= kfs.len(),
            last_at_or_before(kfs@, time) == last_at_or_before(kfs@.take(n as int), time),
        decreases n,
    {
        assert(kfs@.take(n as int).drop_last() =~= kfs@.take(n - 1));
        n = n - 1;
    }
    if n == 0 {
        Some(Segment::At { index: 0 })
    } else {
        let i: usize = n - 1;
        if i == kfs.len() - 1 || kfs[i].interp == InterpKind::Hold {
            Some(Segment::At { index: i })
        } else {
            Some(Segment::Between { left: i })
        }
    }
}

/// What decides the value of a numeric curve at a time.
#[derive(Clone, Copy, Debug, PartialEq, Eq, Structural)]
pub enum CurveSample {
    /// The value itself.
    Exact(Scalar),
    /// A blend of two keyframes, by the interpolation of the first.
    Blend { from: Keyframe<Scalar>, to: Keyframe<Scalar> },
}

/// What decides the value of `curve` at `time`; an animated curve without
/// keyframes is zero.
pub open spec fn curve_sample(curve: CurveModel<Scalar>, time: Rational) -> CurveSample {
    match curve {
        CurveModel::Static(v) => CurveSample::Exact(v),
        CurveModel::Animated(kfs) => match segment(kfs, time) {
            None => CurveSample::Exact(zero()),
            Some(Segment::At { index }) => CurveSample::Exact(kfs[index as int].v),
            Some(Segment::Between { left }) => CurveSample::Blend {
                from: kfs[left as int],
                to: kfs[left + 1],
            },
        },
    }
}

impl Curve<Scalar> {
    /// What decides the value of this curve at `time`.
    pub fn sample_at_time(&self, time: Rational) -> (r: CurveSample)
        ensures
            r == curve_sample(self@, time),
    {
        broadcast use scalar_keyframes_view;

        match self {
            Curve::Static(v) => CurveSample::Exact(*v),
            Curve::Animated(kfs) => {
                proof {
                    assert(kfs.len() <= usize::MAX);
                    last_at_or_before_bounds(kfs@, time);
                    segment_brackets_time(kfs@, time);
                }
                match segment_at(kfs, time) {
                    None => CurveSample::Exact(Scalar::zero()),
                    Some(Segment::At { index }) => CurveSample::Exact(kfs[index].v),
                    Some(Segment::Between { left }) => CurveSample::Blend {
                        from: kfs[left],
                        to: kfs[left + 1],
                    },
                }
            },
        }
    }

    /// A copy of this curve.
    pub fn duplicate(&self) -> (r: Self)
        ensures
            r@ == self@,
    {
        broadcast use scalar_keyframes_view;

        match self {
            Curve::Static(v) => Curve::Static(*v),
            Curve::Animated(kfs) => Curve::Animated(copy_keyframes(kfs)),
        }
    }
}

/// A copy of a list of keyframes.
pub fn copy_keyframes(kfs: &Vec<Keyframe<Scalar>>) -> (r: Vec<Keyframe<Scalar>>)
    ensures
        r@ == kfs@,
{
    let mut out: Vec<Keyframe<Scalar>> = Vec::new();
    let mut i: usize = 0;
    while i < kfs.len()
        invariant
            i <= kfs.len(),
            out@ == kfs@.take(i as int),
        decreases kfs.len() - i,
    {
        out.push(kfs[i]);
        i = i + 1;
        assert(kfs@.take(i as int) =~= kfs@.take(i - 1).push(kfs@[i - 1]));
    }
    assert(kfs@.take(i as int) =~= kfs@);
    out
}

/// `s` with `k` placed after the last keyframe that does not come later than it.
pub open spec fn insert_stable(s: Seq<Keyframe<Scalar>>, k: Keyframe<Scalar>) -> Seq<
    Keyframe<Scalar>,
>
    decreases s.len(),
{
    if s.len() == 0 || !before(k.t, s.last().t) {
        s.push(k)
    } else {
        insert_stable(s.drop_last(), k).push(s.last())
    }
}

/// `s` ordered by time; keyframes at the same time keep their order.
pub open spec fn sorted_by_time(s: Seq<Keyframe<Scalar>>) -> Seq<Keyframe<Scalar>>
    decreases s.len(),
{
    if s.len() == 0 {
        s
    } else {
        insert_stable(sorted_by_time(s.drop_last()), s.last())
    }
}

/// Whether no keyframe of `s` comes later than one after it.
pub open spec fn in_time_order(s: Seq<Keyframe<Scalar>>) -> bool {
    forall|i: int, j: int| 0 <= i <= j < s.len() ==> !before(#[trigger] s[j].t, #[trigger] s[i].t)
}

/// Whether every keyframe of `s` has a proper time.
pub open spec fn proper_times(s: Seq<Keyframe<Scalar>>) -> bool {
    forall|i: int| 0 <= i < s.len() ==> (#[trigger] s[i]).t.den != 0
}

proof fn insert_stable_position(s: Seq<Keyframe<Scalar>>, k: Keyframe<Scalar>, n: int)
    requires
        0 <= n <= s.len(),
        n == 0 || !before(k.t, s[n - 1].t),
        forall|j: int| n <= j < s.len() ==> before(k.t, #[trigger] s[j].t),
    ensures
        insert_stable(s, k) == s.insert(n, k),
    decreases s.len(),
{
    if n == s.len() {
        assert(s.insert(n, k) =~= s.push(k));
    } else {
        assert(before(k.t, s.last().t));
        assert(s.drop_last().len() == s.len() - 1);
        insert_stable_position(s.drop_last(), k, n);
        assert(s.insert(n, k) =~= s.drop_last().insert(n, k).push(s.last()));
    }
}

fn insert_keyframe(v: &mut Vec<Keyframe<Scalar>>, k: Keyframe<Scalar>)
    ensures
        final(v)@ == insert_stable(old(v)@, k),
{
    let mut n: usize = v.len();
    while n > 0 && k.t.is_before(v[n - 1].t)
        invariant
            n <= v.len(),
            forall|j: int| n <= j < v.len() ==> before(k.t, #[trigger] v@[j].t),
        decreases n,
    {
        n = n - 1;
    }
    proof {
        insert_stable_position(v@, k, n as int);
    }
    v.insert(n, k);
}

/// `kfs` ordered by time; keyframes at the same time keep their order.
pub fn sort_keyframes(kfs: &Vec<Keyframe<Scalar>>) -> (r: Vec<Keyframe<Scalar>>)
    ensures
        r@ == sorted_by_time(kfs@),
{
    let mut out: Vec<Keyframe<Scalar>> = Vec::new();
    let mut i: usize = 0;
    assert(sorted_by_time(kfs@.take(0)) =~= Seq::<Keyframe<Scalar>>::empty());
    while i < kfs.len()
        invariant
            i <= kfs.len(),
            out@ == sorted_by_time(kfs@.take(i as int)),
        decreases kfs.len() - i,
    {
        insert_keyframe(&mut out, kfs[i]);
        i = i + 1;
        assert(kfs@.take(i as int).drop_last() =~= kfs@.take(i - 1));
    }
    assert(kfs@.take(i as int) =~= kfs@);
    out
}

pub proof fn insert_stable_where(s: Seq<Keyframe<Scalar>>, k: Keyframe<Scalar>) -> (n: int)
    ensures
        0 <= n <= s.len(),
        n == 0 || !before(k.t, s[n - 1].t),
        forall|j: int| n <= j < s.len() ==> before(k.t, #[trigger] s[j].t),
        insert_stable(s, k) == s.insert(n, k),
    decreases s.len(),
{
    if s.len() == 0 || !before(k.t, s.last().t) {
        insert_stable_position(s, k, s.len() as int);
        s.len() as int
    } else {
        let n = insert_stable_where(s.drop_last(), k);
        assert forall|j: int| n <= j < s.len() implies before(k.t, #[trigger] s[j].t) by {
            if j < s.len() - 1 {
                assert(s.drop_last()[j] == s[j]);
            }
        }
        insert_stable_position(s, k, n);
        n
    }
}

/// Sorting keeps every keyframe, and its result is in time order where all
/// times are proper.
pub proof fn sorting_keeps_and_orders(s: Seq<Keyframe<Scalar>>)
    ensures
        sorted_by_time(s).len() == s.len(),
        sorted_by_time(s).to_multiset() == s.to_multiset(),
        proper_times(s) ==> in_time_order(sorted_by_time(s)) && proper_times(sorted_by_time(s)),
    decreases s.len(),
{
    broadcast use vstd::seq_lib::group_to_multiset_ensures;

    if s.len() > 0 {
        let init = s.drop_last();
        let k = s.last();
        sorting_keeps_and_orders(init);
        let done = sorted_by_time(init);
        let n = insert_stable_where(done, k);
        assert(s =~= init.push(k));
        assert(done.insert(n, k).to_multiset() =~= done.to_multiset().insert(k));
        assert(s.to_multiset() =~= init.to_multiset().insert(k));
        if proper_times(s) {
            assert forall|i: int| 0 <= i < init.len() implies (#[trigger] init[i]).t.den != 0 by {
                assert(init[i] == s[i]);
            }
            let r = done.insert(n, k);
            assert forall|i: int| 0 <= i < r.len() implies (#[trigger] r[i]).t.den != 0 by {
                if i < n {
                    assert(r[i] == done[i]);
                } else if i == n {
                    assert(r[i] == k && s[s.len() - 1] == k);
                } else {
                    assert(r[i] == done[i - 1]);
                }
            }
            assert forall|i: int, j: int| 0 <= i <= j < r.len() implies !before(
                #[trigger] r[j].t,
                #[trigger] r[i].t,
            ) by {
                let a = if i < n {
                    i
                } else {
                    i - 1
                };
                let b = if j < n {
                    j
                } else {
                    j - 1
                };
                if i == n && j > n {
                    assert(r[j] == done[j - 1]);
                } else if j == n && i < n {
                    assert(r[i] == done[i]);
                    assert(!before(done[n - 1].t, done[i].t));
                    assert(done[n - 1].t.den != 0 && done[i].t.den != 0);
                    assert(k.t.den != 0) by {
                        assert(s[s.len() - 1] == k);
                    }
                    crate::model::time::not_before_transitive(done[i].t, done[n - 1].t, k.t);
                } else if i != n && j != n {
                    assert(r[i] == done[a] && r[j] == done[b]);
                }
            }
        }
    }
}

/// Sorting keyframes that are in time order changes nothing.
pub proof fn sorting_sorted_is_identity(s: Seq<Keyframe<Scalar>>)
    requires
        in_time_order(s),
    ensures
        sorted_by_time(s) == s,
    decreases s.len(),
{
    if s.len() > 0 {
        let init = s.drop_last();
        assert forall|i: int, j: int| 0 <= i <= j < init.len() implies !before(
            #[trigger] init[j].t,
            #[trigger] init[i].t,
        ) by {
            assert(init[i] == s[i] && init[j] == s[j]);
        }
        sorting_sorted_is_identity(init);
        if init.len() > 0 {
            assert(!before(s[s.len() - 1].t, s[s.len() - 2].t));
        }
        assert(init.push(s.last()) =~= s);
    }
}

/// A curve keeps the value of its first keyframe before it, and that of its
/// last keyframe from it on.
pub proof fn curve_is_held_outside(kfs: Seq<Keyframe<Scalar>>, time: Rational)
    requires
        0 < kfs.len() <= usize::MAX,
    ensures
        (forall|j: int| 0 <= j < kfs.len() ==> before(time, #[trigger] kfs[j].t)) ==> curve_sample(
            CurveModel::Animated(kfs),
            time,
        ) == CurveSample::Exact(kfs[0].v),
        !before(time, kfs.last().t) ==> curve_sample(CurveModel::Animated(kfs), time)
            == CurveSample::Exact(kfs.last().v),
{
    last_at_or_before_bounds(kfs, time);
}

/// Between two keyframes the value comes from these two: it is that of the
/// first if it holds, and a blend of both otherwise.
pub proof fn curve_blends_neighbours(kfs: Seq<Keyframe<Scalar>>, time: Rational, i: int)
    requires
        kfs.len() <= usize::MAX,
        0 <= i < kfs.len() - 1,
        !before(time, kfs[i].t),
        forall|j: int| i < j < kfs.len() ==> before(time, #[trigger] kfs[j].t),
    ensures
        curve_sample(CurveModel::Animated(kfs), time) == if kfs[i].interp == InterpKind::Hold {
            CurveSample::Exact(kfs[i].v)
        } else {
            CurveSample::Blend { from: kfs[i], to: kfs[i + 1] }
        },
{
    last_at_or_before_bounds(kfs, time);
}

/// A constant has its value at every time.
pub proof fn constant_is_the_same_at_all_times(v: Scalar, a: Rational, b: Rational)
    ensures
        curve_sample(CurveModel::Static(v), a) == curve_sample(CurveModel::Static(v), b),
        curve_sample(CurveModel::Static(v), a) == CurveSample::Exact(v),
{
}

} // verus!
