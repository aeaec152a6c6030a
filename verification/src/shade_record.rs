//! The record a primitive hands to the shading stage: whether a hit occurred,
//! the world-space hit point, the surface normal there, and the primitive's
//! color. Built through a builder that accumulates optional fields and
//! finalizes into an immutable record.

use vstd::prelude::*;

use crate::color::RGBColor;
use crate::vector3::Vector3;
use crate::vector3::Vector3Model;

verus! {

/// Mathematical value of a `ShadeRecord`.
pub ghost struct ShadeRecordModel {
    pub hit_an_object: bool,
    pub local_hit_point: Option<Vector3Model>,
    pub normal: Option<Vector3Model>,
    pub color: Option<RGBColor>,
}

/// The immutable intersection-result record.
#[derive(Clone, Copy, Debug)]
pub struct ShadeRecord {
    hit_an_object: bool,
    local_hit_point: Option<Vector3>,
    normal: Option<Vector3>,
    color: Option<RGBColor>,
}

impl View for ShadeRecord {
    type V = ShadeRecordModel;

    closed spec fn view(&self) -> ShadeRecordModel {
        ShadeRecordModel {
            hit_an_object: self.hit_an_object,
            local_hit_point: match self.local_hit_point {
                Some(p) => Some(p@),
                None => None,
            },
            normal: match self.normal {
                Some(n) => Some(n@),
                None => None,
            },
            color: self.color,
        }
    }
}

impl ShadeRecord {
    /// Whether a hit occurred.
    pub fn hit_an_object(&self) -> (r: bool)
        ensures
            r == self@.hit_an_object,
    {
        self.hit_an_object
    }

    /// The world-space hit point; only a record built with one has it.
    pub fn local_hit_point(&self) -> (r: Vector3)
        requires
            self@.local_hit_point is Some,
        ensures
            r@ == self@.local_hit_point->Some_0,
    {
        self.local_hit_point.unwrap()
    }

    /// The surface normal at the hit; only a record built with one has it.
    pub fn normal(&self) -> (r: Vector3)
        requires
            self@.normal is Some,
        ensures
            r@ == self@.normal->Some_0,
    {
        self.normal.unwrap()
    }

    /// The color of the primitive that was hit; only a record built with one
    /// has it.
    pub fn color(&self) -> (r: RGBColor)
        requires
            self@.color is Some,
        ensures
            r == self@.color->Some_0,
    {
        self.color.unwrap()
    }
}

/// Accumulates the optional fields of a `ShadeRecord` and finalizes them into
/// the immutable record. Fields never set stay absent (false for the flag).
pub struct ShadeRecordBuilder {
    hit_an_object: bool,
    local_hit_point: Option<Vector3>,
    normal: Option<Vector3>,
    color: Option<RGBColor>,
}

impl View for ShadeRecordBuilder {
    type V = ShadeRecordModel;

    closed spec fn view(&self) -> ShadeRecordModel {
        ShadeRecordModel {
            hit_an_object: self.hit_an_object,
            local_hit_point: match self.local_hit_point {
                Some(p) => Some(p@),
                None => None,
            },
            normal: match self.normal {
                Some(n) => Some(n@),
                None => None,
            },
            color: self.color,
        }
    }
}

impl ShadeRecordBuilder {
    /// A builder with every field unset.
    pub fn new() -> (r: ShadeRecordBuilder)
        ensures
            r@ == (ShadeRecordModel {
                hit_an_object: false,
                local_hit_point: None::<Vector3Model>,
                normal: None::<Vector3Model>,
                color: None::<RGBColor>,
            }),
    {
        ShadeRecordBuilder { hit_an_object: false, local_hit_point: None, normal: None, color: None }
    }

    /// Sets the hit flag, overwriting any prior value.
    pub fn hit_an_object(self, v: bool) -> (r: ShadeRecordBuilder)
        ensures
            r@ == (ShadeRecordModel { hit_an_object: v, ..self@ }),
    {
        ShadeRecordBuilder { hit_an_object: v, ..self }
    }

    /// Sets the hit point, overwriting any prior value.
    pub fn local_hit_point(self, p: Vector3) -> (r: ShadeRecordBuilder)
        ensures
            r@ == (ShadeRecordModel { local_hit_point: Some(p@), ..self@ }),
    {
        ShadeRecordBuilder { local_hit_point: Some(p), ..self }
    }

    /// Sets the surface normal, overwriting any prior value.
    pub fn normal(self, n: Vector3) -> (r: ShadeRecordBuilder)
        ensures
            r@ == (ShadeRecordModel { normal: Some(n@), ..self@ }),
    {
        ShadeRecordBuilder { normal: Some(n), ..self }
    }

    /// Sets the color, overwriting any prior value.
    pub fn color(self, c: RGBColor) -> (r: ShadeRecordBuilder)
        ensures
            r@ == (ShadeRecordModel { color: Some(c), ..self@ }),
    {
        ShadeRecordBuilder { color: Some(c), ..self }
    }

    /// Consumes the builder and produces the record; no validation is
    /// performed, fields never set remain absent.
    pub fn finalize(self) -> (r: ShadeRecord)
        ensures
            r@ == self@,
    {
        ShadeRecord {
            hit_an_object: self.hit_an_object,
            local_hit_point: self.local_hit_point,
            normal: self.normal,
            color: self.color,
        }
    }
}

} // verus!
