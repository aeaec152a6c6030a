//! The capability every primitive implements — ray intersection, color
//! getter, color setter — and the one concrete primitive, the plane.

use vstd::prelude::*;

use crate::color::color_wf;
use crate::color::RGBColor;
use crate::common::COORD_BOUND;
use crate::common::EPSILON_DEN;
use crate::common::EPSILON_NUM;
use crate::common::T_BOUND;
use crate::common::UNIT_SCALE;
use crate::ratio::lemma_mul_abs_bound;
use crate::ratio::ratio_bounded;
use crate::ratio::ratio_lt;
use crate::ratio::Ratio;
use crate::ratio::RatioModel;
use crate::ray::ray_wf;
use crate::ray::Ray;
use crate::ray::RayModel;
use crate::shade_record::ShadeRecord;
use crate::shade_record::ShadeRecordBuilder;
use crate::shade_record::ShadeRecordModel;
use crate::vector3::construction_normal;
use crate::vector3::is_unit_spec;
use crate::vector3::v3_bounded;
use crate::vector3::v3_dot;
use crate::vector3::v3_is_zero;
use crate::vector3::v3_minus;
use crate::vector3::v3_plus;
use crate::vector3::v3_scaled;
use crate::vector3::Vector3;
use crate::vector3::Vector3Model;

verus! {

/// EPSILON as a ratio: the threshold a parametric distance must exceed.
pub open spec fn epsilon_ratio() -> RatioModel {
    RatioModel { num: EPSILON_NUM as int, den: EPSILON_DEN as int }
}

/// The capability shared by every primitive: a ray intersection test, a color
/// getter and a color setter. Each implementer supplies a mathematical model
/// of its hit test — whether a ray hits, at which parametric distance, and
/// with which record — and the executable `hit` is held to that model.
pub trait GeometricObject: Sized {
    /// Well-formedness of the primitive.
    spec fn obj_wf(&self) -> bool;

    /// The primitive's current color attribute.
    spec fn obj_color(&self) -> RGBColor;

    /// The other primitive has the same geometry, differing at most in color.
    spec fn obj_same_shape(&self, other: &Self) -> bool;

    /// Whether the ray hits the primitive.
    spec fn obj_hits(&self, ray: RayModel) -> bool;

    /// The parametric distance of the hit; meaningful when `obj_hits`.
    spec fn obj_hit_t(&self, ray: RayModel) -> RatioModel;

    /// The record of the hit; meaningful when `obj_hits`.
    spec fn obj_hit_record(&self, ray: RayModel) -> ShadeRecordModel;

    /// Intersects the ray with the primitive: (hit, distance, record), with
    /// distance and record present exactly when the ray hits.
    fn hit(&self, ray: &Ray) -> (res: (bool, Option<Ratio>, Option<ShadeRecord>))
        requires
            self.obj_wf(),
            ray_wf(ray@),
        ensures
            res.0 == self.obj_hits(ray@),
            self.obj_hits(ray@) ==> res.1 is Some && res.1->Some_0@ == self.obj_hit_t(ray@),
            self.obj_hits(ray@) ==> res.2 is Some && res.2->Some_0@ == self.obj_hit_record(ray@),
            !self.obj_hits(ray@) ==> res.1 is None && res.2 is None,
    ;

    /// Facts every primitive's hit model obeys: a reported distance exceeds
    /// EPSILON and is representable within T_BOUND, and the record carries
    /// the hit flag, the primitive's color, and a hit point and normal.
    proof fn obj_hit_properties(&self, ray: RayModel)
        requires
            self.obj_wf(),
            ray_wf(ray),
            self.obj_hits(ray),
        ensures
            ratio_bounded(self.obj_hit_t(ray), T_BOUND as int),
            ratio_lt(epsilon_ratio(), self.obj_hit_t(ray)),
            self.obj_hit_record(ray).hit_an_object,
            self.obj_hit_record(ray).color == Some(self.obj_color()),
            self.obj_hit_record(ray).local_hit_point is Some,
            self.obj_hit_record(ray).normal is Some,
    ;

    /// The current color attribute.
    fn color(&self) -> (c: RGBColor)
        requires
            self.obj_wf(),
        ensures
            c == self.obj_color(),
    ;

    /// Replaces the color attribute in place; the geometry is untouched.
    fn set_color(&mut self, c: RGBColor)
        requires
            old(self).obj_wf(),
            color_wf(c),
        ensures
            final(self).obj_wf(),
            final(self).obj_color() == c,
            old(self).obj_same_shape(final(self)),
    ;
}

/// Mathematical value of a `Plane`.
pub ghost struct PlaneModel {
    pub point: Vector3Model,
    pub normal: Vector3Model,
    pub color: RGBColor,
}

/// A plane, given by a point lying on it and a unit normal, with a mutable
/// flat-shading color.
#[derive(Clone, Copy, Debug)]
pub struct Plane {
    point: Vector3,
    normal: Vector3,
    color: RGBColor,
}

impl View for Plane {
    type V = PlaneModel;

    closed spec fn view(&self) -> PlaneModel {
        PlaneModel { point: self.point@, normal: self.normal@, color: self.color }
    }
}

/// Validity of a plane: a bounded point, a bounded unit normal, and a valid
/// color.
pub open spec fn plane_wf(p: PlaneModel) -> bool {
    &&& v3_bounded(p.point, COORD_BOUND as int)
    &&& v3_bounded(p.normal, UNIT_SCALE as int)
    &&& is_unit_spec(p.normal)
    &&& color_wf(p.color)
}

/// Numerator of (point - origin) . normal, the signed distance scaled by the
/// denominators.
pub open spec fn hit_numer(p: PlaneModel, r: RayModel) -> int {
    v3_dot(v3_minus(p.point, r.origin), p.normal).num
}

/// Numerator of direction . normal; zero exactly when the ray is parallel to
/// the plane.
pub open spec fn hit_denom(p: PlaneModel, r: RayModel) -> int {
    v3_dot(r.direction, p.normal).num
}

/// The parametric distance of the intersection,
/// t = ((point - origin) . normal) / (direction . normal), as a ratio with a
/// positive denominator; meaningful only when hit_denom is nonzero. The
/// factor normal.den is the same above and below the bar and is cancelled.
pub open spec fn hit_t(p: PlaneModel, r: RayModel) -> RatioModel {
    let a = hit_numer(p, r);
    let c = hit_denom(p, r);
    let sden = p.point.den * r.origin.den;
    if c > 0 {
        RatioModel { num: a * r.direction.den, den: sden * c }
    } else {
        RatioModel { num: -(a * r.direction.den), den: -(sden * c) }
    }
}

/// Whether the ray hits the plane: the ray is not parallel to it and the
/// parametric distance exceeds EPSILON. A parallel ray and an intersection
/// behind the origin both collapse to a miss.
pub open spec fn plane_hits(p: PlaneModel, r: RayModel) -> bool {
    hit_denom(p, r) != 0 && ratio_lt(epsilon_ratio(), hit_t(p, r))
}

/// The world-space hit point, origin + t * direction.
pub open spec fn plane_hit_point(p: PlaneModel, r: RayModel) -> Vector3Model {
    v3_plus(r.origin, v3_scaled(hit_t(p, r), r.direction))
}

/// The record a hit hands to the shading stage: flag set, the hit point, the
/// plane's normal and its current color.
pub open spec fn plane_hit_record(p: PlaneModel, r: RayModel) -> ShadeRecordModel {
    ShadeRecordModel {
        hit_an_object: true,
        local_hit_point: Some(plane_hit_point(p, r)),
        normal: Some(p.normal),
        color: Some(p.color),
    }
}

impl Plane {
    /// Builds a plane from a point on it and a normal; the point is stored
    /// verbatim, the normal as given when it is already unit-length and
    /// normalized otherwise, and the color starts out black. The normal must
    /// not be the zero vector.
    pub fn new(p: Vector3, n: Vector3) -> (r: Plane)
        requires
            v3_bounded(p@, COORD_BOUND as int),
            v3_bounded(n@, COORD_BOUND as int),
            !v3_is_zero(n@),
        ensures
            plane_wf(r@),
            r@.point == p@,
            construction_normal(n@, r@.normal),
            r@.color == (RGBColor { r: 0, g: 0, b: 0, den: 1 }),
    {
        let normal = if n.is_normalized() {
            n
        } else {
            n.normalized()
        };
        Plane { point: p, normal, color: RGBColor::black() }
    }

    /// The stored point lying on the plane.
    pub fn point(&self) -> (r: Vector3)
        ensures
            r@ == self@.point,
    {
        self.point
    }

    /// The stored unit normal.
    pub fn normal(&self) -> (r: Vector3)
        ensures
            r@ == self@.normal,
    {
        self.normal
    }
}

/// Bounds on the representation of hit_t under well-formed inputs, so that
/// distances of different primitives can be compared by cross-multiplication.
pub proof fn lemma_hit_t_bounds(p: PlaneModel, r: RayModel)
    requires
        plane_wf(p),
        ray_wf(r),
    ensures
        ratio_bounded(hit_t(p, r), T_BOUND as int) || hit_denom(p, r) == 0,
        hit_denom(p, r) != 0 ==> hit_t(p, r).den >= 1,
{
    let cb = COORD_BOUND as int;
    let ub = UNIT_SCALE as int;
    lemma_mul_abs_bound(p.point.x, r.origin.den, cb, cb);
    lemma_mul_abs_bound(r.origin.x, p.point.den, cb, cb);
    lemma_mul_abs_bound(p.point.y, r.origin.den, cb, cb);
    lemma_mul_abs_bound(r.origin.y, p.point.den, cb, cb);
    lemma_mul_abs_bound(p.point.z, r.origin.den, cb, cb);
    lemma_mul_abs_bound(r.origin.z, p.point.den, cb, cb);
    lemma_mul_abs_bound(p.point.den, r.origin.den, cb, cb);
    let m = v3_minus(p.point, r.origin);
    lemma_mul_abs_bound(m.x, p.normal.x, 2097152, ub);
    lemma_mul_abs_bound(m.y, p.normal.y, 2097152, ub);
    lemma_mul_abs_bound(m.z, p.normal.z, 2097152, ub);
    lemma_mul_abs_bound(r.direction.x, p.normal.x, ub, ub);
    lemma_mul_abs_bound(r.direction.y, p.normal.y, ub, ub);
    lemma_mul_abs_bound(r.direction.z, p.normal.z, ub, ub);
    let a = hit_numer(p, r);
    let c = hit_denom(p, r);
    let sden = p.point.den * r.origin.den;
    crate::vector3::lemma_mul_mono_nonneg(1, p.point.den, r.origin.den);
    // |a| <= 3 * 2^21 * 2^16 < 2^39, |c| <= 3 * 2^32 < 2^34, 1 <= sden <= 2^20.
    lemma_mul_abs_bound(a, r.direction.den, 412316860416, ub);
    lemma_mul_abs_bound(sden, c, 1048576, 12884901888);
    if c != 0 {
        if c > 0 {
            crate::vector3::lemma_mul_mono_nonneg(1, sden, c);
        } else {
            crate::vector3::lemma_mul_mono_nonneg(1, sden, -c);
            assert(sden * c == -(sden * (-c))) by (nonlinear_arith);
        }
    }
}

/// hit_t is the textbook formula: as a rational number it equals
/// ((point - origin) . normal) / (direction . normal); cancelling the shared
/// factor normal.den changes the representation, never the value.
pub proof fn lemma_hit_t_formula(p: PlaneModel, r: RayModel)
    requires
        plane_wf(p),
        ray_wf(r),
        hit_denom(p, r) != 0,
    ensures
        crate::ratio::ratio_eq(
            hit_t(p, r),
            crate::ratio::ratio_div(
                v3_dot(v3_minus(p.point, r.origin), p.normal),
                v3_dot(r.direction, p.normal),
            ),
        ),
{
    let a = hit_numer(p, r);
    let c = hit_denom(p, r);
    let sden = p.point.den * r.origin.den;
    let dden = r.direction.den;
    let nden = p.normal.den;
    if c > 0 {
        assert((a * dden) * ((sden * nden) * c) == (a * (dden * nden)) * (sden
            * c)) by (nonlinear_arith);
    } else {
        assert((-(a * dden)) * (-((sden * nden) * c)) == (-(a * (dden * nden))) * (-(sden
            * c))) by (nonlinear_arith);
    }
}

/// Miss property: a ray whose direction is perpendicular to the plane's
/// normal (their dot product is zero) and whose origin is off the plane (the
/// signed distance numerator is nonzero) never hits.
pub proof fn lemma_perpendicular_ray_misses(p: PlaneModel, r: RayModel)
    requires
        hit_denom(p, r) == 0,
        hit_numer(p, r) != 0,
    ensures
        !plane_hits(p, r),
{
}

/// Color pass-through: a plane q that differs from p only by its color
/// attribute, set to c, hits exactly as p does, and every record of a hit on
/// q carries c.
pub proof fn lemma_color_pass_through(p: PlaneModel, q: PlaneModel, c: RGBColor, ray: RayModel)
    requires
        q.point == p.point,
        q.normal == p.normal,
        q.color == c,
    ensures
        plane_hits(q, ray) == plane_hits(p, ray),
        plane_hit_record(q, ray).color == Some(c),
        plane_hit_record(q, ray).local_hit_point == plane_hit_record(p, ray).local_hit_point,
        plane_hit_record(q, ray).normal == plane_hit_record(p, ray).normal,
{
}

impl GeometricObject for Plane {
    open spec fn obj_wf(&self) -> bool {
        plane_wf(self@)
    }

    open spec fn obj_color(&self) -> RGBColor {
        self@.color
    }

    open spec fn obj_same_shape(&self, other: &Plane) -> bool {
        self@.point == other@.point && self@.normal == other@.normal
    }

    open spec fn obj_hits(&self, ray: RayModel) -> bool {
        plane_hits(self@, ray)
    }

    open spec fn obj_hit_t(&self, ray: RayModel) -> RatioModel {
        hit_t(self@, ray)
    }

    open spec fn obj_hit_record(&self, ray: RayModel) -> ShadeRecordModel {
        plane_hit_record(self@, ray)
    }

    fn hit(&self, ray: &Ray) -> (res: (bool, Option<Ratio>, Option<ShadeRecord>)) {
        let o = ray.origin();
        let d = ray.direction();
        proof {
            lemma_hit_t_bounds(self@, ray@);
            let cb = COORD_BOUND as int;
            let ub = UNIT_SCALE as int;
            lemma_mul_abs_bound(self.point.x as int, o.den as int, cb, cb);
            lemma_mul_abs_bound(o.x as int, self.point.den as int, cb, cb);
            lemma_mul_abs_bound(self.point.y as int, o.den as int, cb, cb);
            lemma_mul_abs_bound(o.y as int, self.point.den as int, cb, cb);
            lemma_mul_abs_bound(self.point.z as int, o.den as int, cb, cb);
            lemma_mul_abs_bound(o.z as int, self.point.den as int, cb, cb);
            lemma_mul_abs_bound(self.point.den as int, o.den as int, cb, cb);
        }
        let dx: i128 = self.point.x * o.den - o.x * self.point.den;
        let dy: i128 = self.point.y * o.den - o.y * self.point.den;
        let dz: i128 = self.point.z * o.den - o.z * self.point.den;
        let sden: i128 = self.point.den * o.den;
        proof {
            let ub = UNIT_SCALE as int;
            lemma_mul_abs_bound(dx as int, self.normal.x as int, 2097152, ub);
            lemma_mul_abs_bound(dy as int, self.normal.y as int, 2097152, ub);
            lemma_mul_abs_bound(dz as int, self.normal.z as int, 2097152, ub);
            lemma_mul_abs_bound(d.x as int, self.normal.x as int, ub, ub);
            lemma_mul_abs_bound(d.y as int, self.normal.y as int, ub, ub);
            lemma_mul_abs_bound(d.z as int, self.normal.z as int, ub, ub);
        }
        let a: i128 = dx * self.normal.x + dy * self.normal.y + dz * self.normal.z;
        let c: i128 = d.x * self.normal.x + d.y * self.normal.y + d.z * self.normal.z;
        proof {
            assert(a as int == hit_numer(self@, ray@));
            assert(c as int == hit_denom(self@, ray@));
        }
        if c == 0 {
            (false, None, None)
        } else {
            proof {
                let ub = UNIT_SCALE as int;
                lemma_mul_abs_bound(a as int, d.den as int, 412316860416, ub);
                lemma_mul_abs_bound(sden as int, c as int, 1048576, 12884901888);
            }
            let t: Ratio = if c > 0 {
                Ratio { num: a * d.den, den: sden * c }
            } else {
                Ratio { num: -(a * d.den), den: -(sden * c) }
            };
            proof {
                assert(t@ == hit_t(self@, ray@));
            }
            if t.num * EPSILON_DEN > t.den * EPSILON_NUM {
                proof {
                    let tb = T_BOUND as int;
                    let ub = UNIT_SCALE as int;
                    let cb = COORD_BOUND as int;
                    lemma_mul_abs_bound(t.num as int, d.x as int, tb, ub);
                    lemma_mul_abs_bound(t.num as int, d.y as int, tb, ub);
                    lemma_mul_abs_bound(t.num as int, d.z as int, tb, ub);
                    lemma_mul_abs_bound(t.den as int, d.den as int, tb, ub);
                    lemma_mul_abs_bound(o.x as int, t.den as int * d.den as int, cb, tb * ub);
                    lemma_mul_abs_bound(o.y as int, t.den as int * d.den as int, cb, tb * ub);
                    lemma_mul_abs_bound(o.z as int, t.den as int * d.den as int, cb, tb * ub);
                    lemma_mul_abs_bound(t.num as int * d.x as int, o.den as int, tb * ub, cb);
                    lemma_mul_abs_bound(t.num as int * d.y as int, o.den as int, tb * ub, cb);
                    lemma_mul_abs_bound(t.num as int * d.z as int, o.den as int, tb * ub, cb);
                    lemma_mul_abs_bound(o.den as int, t.den as int * d.den as int, cb, tb * ub);
                    crate::vector3::lemma_mul_mono_nonneg(1, t.den as int, d.den as int);
                    crate::vector3::lemma_mul_mono_nonneg(
                        1,
                        o.den as int,
                        t.den as int * d.den as int,
                    );
                }
                let wden: i128 = t.den * d.den;
                let hx: i128 = o.x * wden + (t.num * d.x) * o.den;
                let hy: i128 = o.y * wden + (t.num * d.y) * o.den;
                let hz: i128 = o.z * wden + (t.num * d.z) * o.den;
                let hp = Vector3::new(hx, hy, hz, o.den * wden);
                proof {
                    assert(hp@ == plane_hit_point(self@, ray@));
                }
                let s = ShadeRecordBuilder::new().hit_an_object(true).local_hit_point(
                    hp,
                ).normal(self.normal()).color(self.color()).finalize();
                (true, Some(t), Some(s))
            } else {
                (false, None, None)
            }
        }
    }

    proof fn obj_hit_properties(&self, ray: RayModel) {
        lemma_hit_t_bounds(self@, ray);
    }

    fn color(&self) -> (c: RGBColor) {
        self.color
    }

    fn set_color(&mut self, c: RGBColor) {
        self.color = c;
    }
}

} // verus!
