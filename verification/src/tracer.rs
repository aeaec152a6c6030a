//! The tracer abstraction: a tracer maps a ray to an optional final color.
//! `MultipleObjects` delegates to the scene's nearest-hit query and extracts
//! the color when a hit occurred.

use vstd::prelude::*;

use crate::color::RGBColor;
use crate::ray::ray_wf;
use crate::ray::Ray;
use crate::ray::RayModel;
use crate::shade_record::ShadeRecordModel;
use crate::shape::GeometricObject;
use crate::world::all_wf;
use crate::world::lemma_winner_unique;
use crate::world::some_hit;
use crate::world::winner_index;
use crate::world::World;

verus! {

/// The color a tracer extracts from a nearest-hit answer: the record's color
/// when a record is present, its hit flag is set and it carries a color; no
/// color in every other case.
pub open spec fn traced_color(rec: Option<ShadeRecordModel>) -> Option<RGBColor> {
    match rec {
        None => None,
        Some(s) => if s.hit_an_object && s.color is Some {
            Some(s.color->Some_0)
        } else {
            None
        },
    }
}

/// A record whose hit flag is false yields no color, never a spurious one,
/// whatever else it carries.
pub proof fn lemma_flagless_record_yields_no_color(s: ShadeRecordModel)
    requires
        !s.hit_an_object,
    ensures
        traced_color(Some(s)) is None,
{
}

/// The capability of a tracer: map a ray to an optional final color.
pub trait Tracer: Sized {
    /// Well-formedness of the tracer and the scene behind it.
    spec fn tracer_wf(&self) -> bool;

    /// The color the tracer yields for a ray.
    spec fn traced(&self, ray: RayModel) -> Option<RGBColor>;

    /// Maps a ray to the final color of the nearest hit, or None.
    fn trace_ray(&self, ray: &Ray) -> (res: Option<RGBColor>)
        requires
            self.tracer_wf(),
            ray_wf(ray@),
        ensures
            res == self.traced(ray@),
    ;
}

/// A tracer over a whole scene: asks the world for the nearest hit and takes
/// the color of the winning record.
pub struct MultipleObjects<T: GeometricObject> {
    world: World<T>,
}

impl<T: GeometricObject> View for MultipleObjects<T> {
    type V = Seq<T>;

    closed spec fn view(&self) -> Seq<T> {
        self.world@
    }
}

impl<T: GeometricObject> MultipleObjects<T> {
    /// Builds the tracer around a scene, which it owns for the render's
    /// duration.
    pub fn new(w: World<T>) -> (r: MultipleObjects<T>)
        ensures
            r@ == w@,
    {
        MultipleObjects { world: w }
    }
}

impl<T: GeometricObject> Tracer for MultipleObjects<T> {
    open spec fn tracer_wf(&self) -> bool {
        all_wf(self@)
    }

    /// No hit anywhere yields None; otherwise the color of the record of the
    /// winning primitive (nearest hit, earliest on ties).
    open spec fn traced(&self, ray: RayModel) -> Option<RGBColor> {
        if some_hit(self@, ray) {
            let j = choose|j: int| winner_index(self@, ray, j);
            traced_color(Some(self@[j].obj_hit_record(ray)))
        } else {
            None
        }
    }

    fn trace_ray(&self, ray: &Ray) -> (res: Option<RGBColor>) {
        let mut result: Option<RGBColor> = None;
        let shade_record = self.world.hit_objects(ray);
        match shade_record {
            Some(s) => {
                proof {
                    let j = choose|j: int|
                        winner_index(self@, ray@, j) && s@ == self@[j].obj_hit_record(ray@);
                    self@[j].obj_hit_properties(ray@);
                    let jc = choose|j: int| winner_index(self@, ray@, j);
                    lemma_winner_unique(self@, ray@, j, jc);
                }
                if s.hit_an_object() {
                    result = Some(s.color());
                }
            },
            None => {},
        }
        result
    }
}

/// No-hit propagation: when no primitive of the scene is hit by the ray, the
/// tracer yields no color.
pub proof fn lemma_no_hit_propagation<T: GeometricObject>(tr: &MultipleObjects<T>, ray: RayModel)
    requires
        !some_hit(tr@, ray),
    ensures
        tr.traced(ray) is None,
{
}

} // verus!
