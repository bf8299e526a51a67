//! 2D affine transform components, each keyframeable.

use crate::model::curve::{Curve, CurveModel};
use crate::scalar::{one, zero, Point, Scalar};
use vstd::prelude::*;

verus! {

#[derive(Clone, Debug, PartialEq)]
pub struct Transform {
    /// Position in composition pixels, relative to the composition's origin.
    pub position: Curve<Point>,
    /// Anchor point in layer-local pixels: the pivot for scale and rotation.
    pub anchor: Curve<Point>,
    /// Scale factor per axis. 1 is identity.
    pub scale: Curve<Point>,
    /// Rotation in degrees, clockwise.
    pub rotation: Curve<Scalar>,
    /// Opacity between 0 and 1.
    pub opacity: Curve<Scalar>,
}

/// What a transform holds.
pub struct TransformModel {
    pub position: CurveModel<Point>,
    pub anchor: CurveModel<Point>,
    pub scale: CurveModel<Point>,
    pub rotation: CurveModel<Scalar>,
    pub opacity: CurveModel<Scalar>,
}

impl View for Transform {
    type V = TransformModel;

    open spec fn view(&self) -> TransformModel {
        TransformModel {
            position: self.position@,
            anchor: self.anchor@,
            scale: self.scale@,
            rotation: self.rotation@,
            opacity: self.opacity@,
        }
    }
}

/// The transform that changes nothing.
pub open spec fn identity_transform() -> TransformModel {
    TransformModel {
        position: CurveModel::Static(Point { x: zero(), y: zero() }),
        anchor: CurveModel::Static(Point { x: zero(), y: zero() }),
        scale: CurveModel::Static(Point { x: one(), y: one() }),
        rotation: CurveModel::Static(zero()),
        opacity: CurveModel::Static(one()),
    }
}

impl Default for Transform {
    fn default() -> (r: Self)
        ensures
            r@ == identity_transform(),
    {
        Transform {
            position: Curve::Static(Point { x: Scalar::zero(), y: Scalar::zero() }),
            anchor: Curve::Static(Point { x: Scalar::zero(), y: Scalar::zero() }),
            scale: Curve::Static(Point { x: Scalar::one(), y: Scalar::one() }),
            rotation: Curve::Static(Scalar::zero()),
            opacity: Curve::Static(Scalar::one()),
        }
    }
}

} // verus!
