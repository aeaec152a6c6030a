//! Rays: an origin and a direction, immutable after construction. The
//! direction is brought to unit length when the ray is built, so a parametric
//! distance along the ray measures geometric distance.

use vstd::prelude::*;

use crate::common::COORD_BOUND;
use crate::common::UNIT_SCALE;
use crate::vector3::construction_normal;
use crate::vector3::is_unit_spec;
use crate::vector3::v3_bounded;
use crate::vector3::v3_is_zero;
use crate::vector3::Vector3;
use crate::vector3::Vector3Model;

verus! {

/// Mathematical value of a `Ray`.
pub ghost struct RayModel {
    pub origin: Vector3Model,
    pub direction: Vector3Model,
}

/// A ray origin + t * direction, with a unit direction.
#[derive(Clone, Copy, Debug)]
pub struct Ray {
    origin: Vector3,
    direction: Vector3,
}

impl View for Ray {
    type V = RayModel;

    closed spec fn view(&self) -> RayModel {
        RayModel { origin: self.origin@, direction: self.direction@ }
    }
}

/// Validity of a ray: the origin is a bounded scene coordinate and the
/// direction a bounded unit vector.
pub open spec fn ray_wf(r: RayModel) -> bool {
    &&& v3_bounded(r.origin, COORD_BOUND as int)
    &&& v3_bounded(r.direction, UNIT_SCALE as int)
    &&& is_unit_spec(r.direction)
}

impl Ray {
    /// Builds a ray from an origin and a direction; the direction is stored
    /// as given when it is already unit-length and normalized otherwise, and
    /// must not be the zero vector.
    pub fn new(origin: Vector3, direction: Vector3) -> (r: Ray)
        requires
            v3_bounded(origin@, COORD_BOUND as int),
            v3_bounded(direction@, COORD_BOUND as int),
            !v3_is_zero(direction@),
        ensures
            ray_wf(r@),
            r@.origin == origin@,
            construction_normal(direction@, r@.direction),
    {
        let dir = if direction.is_normalized() {
            direction
        } else {
            direction.normalized()
        };
        Ray { origin, direction: dir }
    }

    /// The ray's origin.
    pub fn origin(&self) -> (r: Vector3)
        ensures
            r@ == self@.origin,
    {
        self.origin
    }

    /// The ray's direction.
    pub fn direction(&self) -> (r: Vector3)
        ensures
            r@ == self@.direction,
    {
        self.direction
    }
}

} // verus!
