//! Per-layer bezier-path masks.
//!
//! A [`Mask`] is a closed bezier path that gates the layer's alpha. Several
//! masks combine by their [`MaskMode`]. Paths are closed, and the number of
//! vertices is fixed across keyframes.

use crate::model::curve::{Curve, CurveModel};
use crate::scalar::{negated, one, zero, Point, Scalar};
use vstd::prelude::*;

verus! {

#[derive(Clone, Copy, Debug, PartialEq, Eq, Structural)]
pub enum MaskMode {
    Add,
    Subtract,
    Intersect,
    Difference,
}

/// The name of `mode` in the interface.
pub open spec fn mask_mode_label(mode: MaskMode) -> Seq<char> {
    match mode {
        MaskMode::Add => "Add"@,
        MaskMode::Subtract => "Subtract"@,
        MaskMode::Intersect => "Intersect"@,
        MaskMode::Difference => "Difference"@,
    }
}

impl MaskMode {
    /// Every mode, in menu order.
    pub fn all() -> (r: [MaskMode; 4])
        ensures
            r@ == seq![
                MaskMode::Add,
                MaskMode::Subtract,
                MaskMode::Intersect,
                MaskMode::Difference,
            ],
    {
        [MaskMode::Add, MaskMode::Subtract, MaskMode::Intersect, MaskMode::Difference]
    }

    pub fn label(self) -> (r: &'static str)
        ensures
            r@ == mask_mode_label(self),
    {
        match self {
            MaskMode::Add => "Add",
            MaskMode::Subtract => "Subtract",
            MaskMode::Intersect => "Intersect",
            MaskMode::Difference => "Difference",
        }
    }
}

impl Default for MaskMode {
    fn default() -> (r: Self)
        ensures
            r == MaskMode::Add,
    {
        MaskMode::Add
    }
}

/// One control point on a closed bezier path. The tangents are relative to
/// the anchor; a zero tangent on both sides makes a corner.
#[derive(Clone, Copy, Debug, PartialEq, Eq, Structural)]
pub struct MaskVertex {
    pub anchor: Point,
    pub in_tan: Point,
    pub out_tan: Point,
}

/// A vertex at `(x, y)` without tangents.
pub open spec fn corner(x: Scalar, y: Scalar) -> MaskVertex {
    MaskVertex {
        anchor: Point { x, y },
        in_tan: Point { x: zero(), y: zero() },
        out_tan: Point { x: zero(), y: zero() },
    }
}

impl MaskVertex {
    pub fn corner(x: Scalar, y: Scalar) -> (r: Self)
        ensures
            r == corner(x, y),
    {
        MaskVertex {
            anchor: Point { x, y },
            in_tan: Point { x: Scalar::zero(), y: Scalar::zero() },
            out_tan: Point { x: Scalar::zero(), y: Scalar::zero() },
        }
    }
}

/// Closed bezier path.
#[derive(Clone, Debug, PartialEq)]
pub struct MaskPath {
    pub vertices: Vec<MaskVertex>,
}

impl View for MaskPath {
    type V = Seq<MaskVertex>;

    open spec fn view(&self) -> Seq<MaskVertex> {
        self.vertices@
    }
}

/// The sides of an upright box.
#[derive(Clone, Copy, Debug, PartialEq, Eq, Structural)]
pub struct Sides {
    pub left: Scalar,
    pub top: Scalar,
    pub right: Scalar,
    pub bottom: Scalar,
}

/// The corners of a box, clockwise from the top left.
pub open spec fn rectangle_path(b: Sides) -> Seq<MaskVertex> {
    seq![
        corner(b.left, b.top),
        corner(b.right, b.top),
        corner(b.right, b.bottom),
        corner(b.left, b.bottom),
    ]
}

/// The four anchors of an ellipse with centre `c` that touches the sides `b`,
/// clockwise from the top, with handles of half-lengths `k`.
pub open spec fn ellipse_path(c: Point, b: Sides, k: Point) -> Seq<MaskVertex> {
    seq![
        MaskVertex {
            anchor: Point { x: c.x, y: b.top },
            in_tan: Point { x: negated(k.x), y: zero() },
            out_tan: Point { x: k.x, y: zero() },
        },
        MaskVertex {
            anchor: Point { x: b.right, y: c.y },
            in_tan: Point { x: zero(), y: negated(k.y) },
            out_tan: Point { x: zero(), y: k.y },
        },
        MaskVertex {
            anchor: Point { x: c.x, y: b.bottom },
            in_tan: Point { x: k.x, y: zero() },
            out_tan: Point { x: negated(k.x), y: zero() },
        },
        MaskVertex {
            anchor: Point { x: b.left, y: c.y },
            in_tan: Point { x: zero(), y: k.y },
            out_tan: Point { x: zero(), y: negated(k.y) },
        },
    ]
}

/// Every incoming handle of an ellipse is its outgoing handle mirrored at the
/// anchor, up to the sign of zero: the path is smooth at each anchor.
pub proof fn ellipse_is_smooth(c: Point, b: Sides, k: Point, i: int)
    requires
        0 <= i < 4,
    ensures
        ({
            let v = ellipse_path(c, b, k)[i];
            &&& i % 2 == 0 ==> v.in_tan.y == zero() && v.out_tan.y == zero() && v.in_tan.x
                == negated(v.out_tan.x)
            &&& i % 2 == 1 ==> v.in_tan.x == zero() && v.out_tan.x == zero() && v.in_tan.y
                == negated(v.out_tan.y)
        }),
{
    crate::scalar::negate_twice(k.x);
    crate::scalar::negate_twice(k.y);
}

impl MaskPath {
    /// The box with the given sides.
    pub fn rectangle(b: Sides) -> (r: Self)
        ensures
            r@ == rectangle_path(b),
    {
        let mut vertices: Vec<MaskVertex> = Vec::new();
        vertices.push(MaskVertex::corner(b.left, b.top));
        vertices.push(MaskVertex::corner(b.right, b.top));
        vertices.push(MaskVertex::corner(b.right, b.bottom));
        vertices.push(MaskVertex::corner(b.left, b.bottom));
        assert(vertices@ =~= rectangle_path(b));
        MaskPath { vertices }
    }

    /// Four cubic segments that approximate the ellipse with centre `c` which
    /// touches the sides `b`. `k` holds the lengths of the handles per axis.
    pub fn ellipse(c: Point, b: Sides, k: Point) -> (r: Self)
        ensures
            r@ == ellipse_path(c, b, k),
    {
        let z = Scalar::zero();
        let mut vertices: Vec<MaskVertex> = Vec::new();
        vertices.push(
            MaskVertex {
                anchor: Point { x: c.x, y: b.top },
                in_tan: Point { x: k.x.neg(), y: z },
                out_tan: Point { x: k.x, y: z },
            },
        );
        vertices.push(
            MaskVertex {
                anchor: Point { x: b.right, y: c.y },
                in_tan: Point { x: z, y: k.y.neg() },
                out_tan: Point { x: z, y: k.y },
            },
        );
        vertices.push(
            MaskVertex {
                anchor: Point { x: c.x, y: b.bottom },
                in_tan: Point { x: k.x, y: z },
                out_tan: Point { x: k.x.neg(), y: z },
            },
        );
        vertices.push(
            MaskVertex {
                anchor: Point { x: b.left, y: c.y },
                in_tan: Point { x: z, y: k.y },
                out_tan: Point { x: z, y: k.y.neg() },
            },
        );
        assert(vertices@ =~= ellipse_path(c, b, k));
        MaskPath { vertices }
    }

    /// A copy of this path.
    pub fn duplicate(&self) -> (r: Self)
        ensures
            r@ == self@,
    {
        let mut vertices: Vec<MaskVertex> = Vec::new();
        let mut i: usize = 0;
        while i < self.vertices.len()
            invariant
                i <= self.vertices.len(),
                vertices@ == self.vertices@.take(i as int),
            decreases self.vertices.len() - i,
        {
            vertices.push(self.vertices[i]);
            i = i + 1;
        }
        assert(vertices@ =~= self.vertices@);
        MaskPath { vertices }
    }

    /// How to blend this path with `other`, where `past_half` tells whether
    /// the blend factor has reached one half.
    pub fn blend(&self, other: &MaskPath, past_half: bool) -> (r: PathBlend)
        ensures
            r@ == path_blend(self@, other@, past_half),
    {
        if self.vertices.len() != other.vertices.len() {
            return if past_half {
                PathBlend::Snap(other.duplicate())
            } else {
                PathBlend::Snap(self.duplicate())
            };
        }
        let mut pairs: Vec<(MaskVertex, MaskVertex)> = Vec::new();
        let mut i: usize = 0;
        while i < self.vertices.len()
            invariant
                i <= self.vertices.len(),
                self.vertices.len() == other.vertices.len(),
                pairs@ =~= Seq::new(i as nat, |j: int| (self.vertices@[j], other.vertices@[j])),
            decreases self.vertices.len() - i,
        {
            pairs.push((self.vertices[i], other.vertices[i]));
            i = i + 1;
        }
        PathBlend::Pairs(pairs)
    }
}

/// How two paths blend.
pub enum PathBlend {
    /// One of the two paths as it is.
    Snap(MaskPath),
    /// The vertices to blend, pair by pair.
    Pairs(Vec<(MaskVertex, MaskVertex)>),
}

/// What a path blend holds.
pub enum PathBlendModel {
    Snap(Seq<MaskVertex>),
    Pairs(Seq<(MaskVertex, MaskVertex)>),
}

impl View for PathBlend {
    type V = PathBlendModel;

    open spec fn view(&self) -> PathBlendModel {
        match self {
            PathBlend::Snap(p) => PathBlendModel::Snap(p@),
            PathBlend::Pairs(p) => PathBlendModel::Pairs(p@),
        }
    }
}

/// Paths with the same number of vertices blend vertex by vertex; otherwise
/// the path closer in time stands.
pub open spec fn path_blend(
    a: Seq<MaskVertex>,
    b: Seq<MaskVertex>,
    past_half: bool,
) -> PathBlendModel {
    if a.len() != b.len() {
        PathBlendModel::Snap(
            if past_half {
                b
            } else {
                a
            },
        )
    } else {
        PathBlendModel::Pairs(Seq::new(a.len(), |i: int| (a[i], b[i])))
    }
}

impl Default for MaskPath {
    fn default() -> (r: Self)
        ensures
            r@ == Seq::<MaskVertex>::empty(),
    {
        MaskPath { vertices: Vec::new() }
    }
}

/// A single mask on a layer. The path can be animated.
#[derive(Clone, Debug, PartialEq)]
pub struct Mask {
    pub name: String,
    pub mode: MaskMode,
    /// Opacity between 0 and 1. Multiplies the rasterized alpha.
    pub opacity: Scalar,
    /// Inset or outset in mask-space pixels. Negative shrinks, positive grows.
    pub expansion: Scalar,
    /// Edge softening in mask-space pixels.
    pub feather: Scalar,
    pub path: Curve<MaskPath>,
}

/// What a mask holds.
#[verifier::ext_equal]
pub struct MaskModel {
    pub name: Seq<char>,
    pub mode: MaskMode,
    pub opacity: Scalar,
    pub expansion: Scalar,
    pub feather: Scalar,
    pub path: CurveModel<Seq<MaskVertex>>,
}

impl View for Mask {
    type V = MaskModel;

    open spec fn view(&self) -> MaskModel {
        MaskModel {
            name: self.name@,
            mode: self.mode,
            opacity: self.opacity,
            expansion: self.expansion,
            feather: self.feather,
            path: self.path@,
        }
    }
}

/// A new mask along a fixed path: it adds, at full opacity, unchanged in size
/// and with hard edges.
pub open spec fn new_mask(name: Seq<char>, path: Seq<MaskVertex>) -> MaskModel {
    MaskModel {
        name,
        mode: MaskMode::Add,
        opacity: one(),
        expansion: zero(),
        feather: zero(),
        path: CurveModel::Static(path),
    }
}

impl Mask {
    /// A new mask along `path`.
    pub fn along(name: String, path: MaskPath) -> (r: Self)
        ensures
            r@ == new_mask(name@, path@),
    {
        Mask {
            name,
            mode: MaskMode::Add,
            opacity: Scalar::one(),
            expansion: Scalar::zero(),
            feather: Scalar::zero(),
            path: Curve::Static(path),
        }
    }

    pub fn rectangle(name: String, b: Sides) -> (r: Self)
        ensures
            r@ == new_mask(name@, rectangle_path(b)),
    {
        Mask::along(name, MaskPath::rectangle(b))
    }

    pub fn ellipse(name: String, c: Point, b: Sides, k: Point) -> (r: Self)
        ensures
            r@ == new_mask(name@, ellipse_path(c, b, k)),
    {
        Mask::along(name, MaskPath::ellipse(c, b, k))
    }
}

/// Whether `p` is the anchor of exactly one vertex of `path`.
pub open spec fn anchored_once(path: Seq<MaskVertex>, p: Point) -> bool {
    exists|i: int|
        0 <= i < path.len() && (#[trigger] path[i]).anchor == p && forall|j: int|
            0 <= j < path.len() && (#[trigger] path[j]).anchor == p ==> j == i
}

/// Whether exactly one coordinate of `a` and `b` is the same.
pub open spec fn in_line(a: Point, b: Point) -> bool {
    (a.x == b.x) != (a.y == b.y)
}

/// A rectangle has four corners without tangents: every meeting of two of its
/// sides is one of them. The path runs along the sides, round to its start.
pub proof fn rectangle_has_its_corners(b: Sides, i: int)
    requires
        0 <= i < 4,
    ensures
        ({
            let path = rectangle_path(b);
            let flat = Point { x: zero(), y: zero() };
            &&& path.len() == 4
            &&& path[i].in_tan == flat && path[i].out_tan == flat
            &&& b.left != b.right && b.top != b.bottom ==> {
                &&& anchored_once(path, Point { x: b.left, y: b.top })
                &&& anchored_once(path, Point { x: b.right, y: b.top })
                &&& anchored_once(path, Point { x: b.left, y: b.bottom })
                &&& anchored_once(path, Point { x: b.right, y: b.bottom })
                &&& in_line(path[i].anchor, path[(i + 1) % 4].anchor)
            }
            &&& path[i].anchor.x == b.left || path[i].anchor.x == b.right
            &&& path[i].anchor.y == b.top || path[i].anchor.y == b.bottom
            &&& path[i].anchor.x == b.left && path[(i + 1) % 4].anchor.x == b.left ==> b.left
                == b.right || (path[i].anchor.y == b.bottom && path[(i + 1) % 4].anchor.y == b.top)
        }),
{
    let path = rectangle_path(b);
    if b.left != b.right && b.top != b.bottom {
        assert(path[0].anchor == (Point { x: b.left, y: b.top }));
        assert(path[1].anchor == (Point { x: b.right, y: b.top }));
        assert(path[2].anchor == (Point { x: b.right, y: b.bottom }));
        assert(path[3].anchor == (Point { x: b.left, y: b.bottom }));
    }
}

/// Whether a vertex of `path` is at `p`.
pub open spec fn is_corner(path: Seq<MaskVertex>, p: Point) -> bool {
    exists|i: int| 0 <= i < path.len() && (#[trigger] path[i]).anchor == p
}

/// The rectangle with two opposite sides exchanged has the same corners.
pub proof fn mirrored_rectangle_has_the_same_corners(b: Sides, p: Point)
    ensures
        ({
            let path = rectangle_path(b);
            let mirrored = rectangle_path(Sides { left: b.right, right: b.left, ..b });
            let upturned = rectangle_path(Sides { top: b.bottom, bottom: b.top, ..b });
            &&& is_corner(path, p) <==> is_corner(mirrored, p)
            &&& is_corner(path, p) <==> is_corner(upturned, p)
        }),
{
    let path = rectangle_path(b);
    let m = rectangle_path(Sides { left: b.right, right: b.left, ..b });
    let u = rectangle_path(Sides { top: b.bottom, bottom: b.top, ..b });
    assert(path[0].anchor == m[1].anchor && path[1].anchor == m[0].anchor);
    assert(path[2].anchor == m[3].anchor && path[3].anchor == m[2].anchor);
    assert(path[0].anchor == u[3].anchor && path[3].anchor == u[0].anchor);
    assert(path[1].anchor == u[2].anchor && path[2].anchor == u[1].anchor);
}

/// An ellipse touches each side in the middle, and there alone.
pub proof fn ellipse_touches_its_sides(c: Point, b: Sides, k: Point, i: int)
    requires
        0 <= i < 4,
        c.x != b.left,
        c.x != b.right,
        c.y != b.top,
        c.y != b.bottom,
        b.left != b.right,
        b.top != b.bottom,
    ensures
        ({
            let path = ellipse_path(c, b, k);
            let here = path[i].anchor;
            let next = path[(i + 1) % 4].anchor;
            &&& path.len() == 4
            &&& anchored_once(path, Point { x: c.x, y: b.top })
            &&& anchored_once(path, Point { x: c.x, y: b.bottom })
            &&& anchored_once(path, Point { x: b.left, y: c.y })
            &&& anchored_once(path, Point { x: b.right, y: c.y })
            &&& here.y == b.top ==> next.x == b.right
            &&& here.x == b.right ==> next.y == b.bottom
            &&& here.y == b.bottom ==> next.x == b.left
            &&& here.x == b.left ==> next.y == b.top
        }),
{
    let path = ellipse_path(c, b, k);
    assert(path[0].anchor == (Point { x: c.x, y: b.top }));
    assert(path[1].anchor == (Point { x: b.right, y: c.y }));
    assert(path[2].anchor == (Point { x: c.x, y: b.bottom }));
    assert(path[3].anchor == (Point { x: b.left, y: c.y }));
}

/// The handles of an ellipse lead along the path: the outgoing one points
/// towards the side that comes next, and the incoming one away from it.
pub proof fn ellipse_handles_lead_on(c: Point, b: Sides, k: Point, i: int)
    requires
        0 <= i < 4,
        c.x != b.left,
        c.x != b.right,
        c.y != b.top,
        c.y != b.bottom,
        b.left != b.right,
        b.top != b.bottom,
    ensures
        ({
            let path = ellipse_path(c, b, k);
            let v = path[i];
            let next = path[(i + 1) % 4].anchor;
            &&& next.x == b.right ==> v.out_tan == (Point { x: k.x, y: zero() }) && v.in_tan
                == (Point { x: negated(k.x), y: zero() })
            &&& next.x == b.left ==> v.out_tan == (Point { x: negated(k.x), y: zero() }) && v.in_tan
                == (Point { x: k.x, y: zero() })
            &&& next.y == b.bottom ==> v.out_tan == (Point { x: zero(), y: k.y }) && v.in_tan
                == (Point { x: zero(), y: negated(k.y) })
            &&& next.y == b.top ==> v.out_tan == (Point { x: zero(), y: negated(k.y) }) && v.in_tan
                == (Point { x: zero(), y: k.y })
        }),
{
}

/// Blending from the other end is blending the other way round: every pair is
/// turned, and the path that stands for the nearer end is the same.
pub proof fn blending_is_symmetric(a: Seq<MaskVertex>, b: Seq<MaskVertex>, past_half: bool)
    ensures
        match (path_blend(a, b, past_half), path_blend(b, a, !past_half)) {
            (PathBlendModel::Snap(p), PathBlendModel::Snap(q)) => p == q && (p == a || p == b),
            (PathBlendModel::Pairs(p), PathBlendModel::Pairs(q)) => p.len() == q.len() && forall|
                i: int,
            |
                0 <= i < p.len() ==> (#[trigger] p[i]).0 == q[i].1 && p[i].1 == q[i].0,
            _ => false,
        },
{
}

/// Only paths with as many vertices blend, each vertex with the one at the
/// same place; before the half the first path stands, from then on the second.
pub proof fn blending_pairs_vertices(a: Seq<MaskVertex>, b: Seq<MaskVertex>, i: int)
    ensures
        path_blend(a, b, true) is Pairs <==> a.len() == b.len(),
        path_blend(a, b, false) is Pairs <==> a.len() == b.len(),
        a.len() == b.len() && 0 <= i < a.len() ==> path_blend(a, b, true)->Pairs_0[i] == (a[i], b[i])
            && path_blend(a, b, false)->Pairs_0[i] == (a[i], b[i]),
        a.len() != b.len() ==> path_blend(a, b, false) == PathBlendModel::Snap(a) && path_blend(
            a,
            b,
            true,
        ) == PathBlendModel::Snap(b),
{
}

/// The mask mode that the menu calls `label`.
pub open spec fn mask_mode_called(label: Seq<char>) -> Option<MaskMode> {
    if label == "Add"@ {
        Some(MaskMode::Add)
    } else if label == "Subtract"@ {
        Some(MaskMode::Subtract)
    } else if label == "Intersect"@ {
        Some(MaskMode::Intersect)
    } else if label == "Difference"@ {
        Some(MaskMode::Difference)
    } else {
        None
    }
}

/// The label of a mask mode tells which it is.
pub proof fn mask_modes_are_told_by_their_labels(x: MaskMode)
    ensures
        mask_mode_called(mask_mode_label(x)) == Some(x),
{
    reveal_strlit("Add");
    reveal_strlit("Subtract");
    reveal_strlit("Intersect");
    reveal_strlit("Difference");
    match x {
        MaskMode::Add => {},
        MaskMode::Subtract => {
            assert("Subtract"@.len() != "Add"@.len());
        },
        MaskMode::Intersect => {
            assert("Intersect"@.len() != "Add"@.len());
            assert("Intersect"@.len() != "Subtract"@.len());
        },
        MaskMode::Difference => {
            assert("Difference"@.len() != "Add"@.len());
            assert("Difference"@.len() != "Subtract"@.len());
            assert("Difference"@.len() != "Intersect"@.len());
        },
    }
}

} // verus!
