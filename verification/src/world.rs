//! The scene: an ordered collection of primitives and the nearest-hit query
//! used by tracers. The record returned belongs to the primitive with the
//! smallest valid parametric distance; on exactly equal distances the
//! primitive that comes first in the collection wins.

use vstd::prelude::*;

use crate::ratio::Ratio;
use crate::ratio::ratio_le;
use crate::ratio::ratio_lt;
use crate::ray::ray_wf;
use crate::ray::Ray;
use crate::ray::RayModel;
use crate::shade_record::ShadeRecord;
use crate::shape::GeometricObject;

verus! {

/// Every primitive of the collection is well-formed.
pub open spec fn all_wf<T: GeometricObject>(s: Seq<T>) -> bool {
    forall|i: int| 0 <= i < s.len() ==> (#[trigger] s[i].obj_wf())
}

/// Some primitive of the collection is hit by the ray.
pub open spec fn some_hit<T: GeometricObject>(s: Seq<T>, ray: RayModel) -> bool {
    exists|i: int| 0 <= i < s.len() && (#[trigger] s[i].obj_hits(ray))
}

/// j is the index whose hit wins the nearest-hit query: it is hit, no other
/// hit is strictly nearer, and every hit at an earlier index is strictly
/// farther (so on ties the first of the equals wins).
pub open spec fn winner_index<T: GeometricObject>(s: Seq<T>, ray: RayModel, j: int) -> bool {
    &&& 0 <= j < s.len()
    &&& s[j].obj_hits(ray)
    &&& forall|i: int|
        0 <= i < s.len() && (#[trigger] s[i].obj_hits(ray)) ==> ratio_le(
            s[j].obj_hit_t(ray),
            s[i].obj_hit_t(ray),
        )
    &&& forall|i: int|
        0 <= i < j && (#[trigger] s[i].obj_hits(ray)) ==> ratio_lt(
            s[j].obj_hit_t(ray),
            s[i].obj_hit_t(ray),
        )
}

/// Two winners are the same index: the tie-break on earlier indices leaves no
/// choice.
pub proof fn lemma_winner_unique<T: GeometricObject>(s: Seq<T>, ray: RayModel, j1: int, j2: int)
    requires
        winner_index(s, ray, j1),
        winner_index(s, ray, j2),
    ensures
        j1 == j2,
{
    if j1 < j2 {
        assert(ratio_lt(s[j2].obj_hit_t(ray), s[j1].obj_hit_t(ray)));
        assert(ratio_le(s[j1].obj_hit_t(ray), s[j2].obj_hit_t(ray)));
    } else if j2 < j1 {
        assert(ratio_lt(s[j1].obj_hit_t(ray), s[j2].obj_hit_t(ray)));
        assert(ratio_le(s[j2].obj_hit_t(ray), s[j1].obj_hit_t(ray)));
    }
}

/// Nearest-hit selection: with two primitives in the scene, both hit by the
/// same ray, the one at the strictly smaller parametric distance wins the
/// query, never the farther one.
pub proof fn lemma_nearest_hit_selection<T: GeometricObject>(
    s: Seq<T>,
    ray: RayModel,
    a: int,
    b: int,
    w: int,
)
    requires
        s.len() == 2,
        0 <= a < 2,
        0 <= b < 2,
        a != b,
        s[a].obj_hits(ray),
        s[b].obj_hits(ray),
        ratio_lt(s[a].obj_hit_t(ray), s[b].obj_hit_t(ray)),
        winner_index(s, ray, w),
    ensures
        w == a,
{
    if w == b {
        assert(ratio_le(s[b].obj_hit_t(ray), s[a].obj_hit_t(ray)));
        crate::ratio::lemma_ratio_lt_asymmetric(s[a].obj_hit_t(ray), s[b].obj_hit_t(ray));
    }
}

/// The scene: owns the ordered primitive collection.
pub struct World<T: GeometricObject> {
    objects: Vec<T>,
}

impl<T: GeometricObject> View for World<T> {
    type V = Seq<T>;

    closed spec fn view(&self) -> Seq<T> {
        self.objects@
    }
}

impl<T: GeometricObject> World<T> {
    /// An empty scene.
    pub fn new() -> (w: World<T>)
        ensures
            w@ =~= Seq::<T>::empty(),
    {
        World { objects: Vec::new() }
    }

    /// Appends a primitive to the scene.
    pub fn add_object(&mut self, obj: T)
        ensures
            final(self)@ =~= old(self)@.push(obj),
    {
        self.objects.push(obj);
    }

    /// Intersects the ray with every primitive and returns the record of the
    /// nearest valid hit, or None when nothing is hit. Ties on exactly equal
    /// distances go to the primitive that comes first in the collection.
    pub fn hit_objects(&self, ray: &Ray) -> (res: Option<ShadeRecord>)
        requires
            all_wf(self@),
            ray_wf(ray@),
        ensures
            res is Some <==> some_hit(self@, ray@),
            res is Some ==> exists|j: int|
                (#[trigger] winner_index(self@, ray@, j)) && res->Some_0@
                    == self@[j].obj_hit_record(ray@),
    {
        let mut best_t: Option<Ratio> = None;
        let mut best_s: Option<ShadeRecord> = None;
        let ghost mut best_j: int = 0;
        let n: usize = self.objects.len();
        let mut i: usize = 0;
        while i < n
            invariant
                0 <= i <= n,
                n == self@.len(),
                all_wf(self@),
                ray_wf(ray@),
                best_t is Some <==> best_s is Some,
                best_s is None ==> forall|m: int|
                    0 <= m < i ==> !(#[trigger] self@[m].obj_hits(ray@)),
                best_s is Some ==> {
                    &&& 0 <= best_j < i
                    &&& self@[best_j].obj_hits(ray@)
                    &&& best_t->Some_0@ == self@[best_j].obj_hit_t(ray@)
                    &&& best_s->Some_0@ == self@[best_j].obj_hit_record(ray@)
                    &&& forall|m: int|
                        0 <= m < i && (#[trigger] self@[m].obj_hits(ray@)) ==> ratio_le(
                            self@[best_j].obj_hit_t(ray@),
                            self@[m].obj_hit_t(ray@),
                        )
                    &&& forall|m: int|
                        0 <= m < best_j && (#[trigger] self@[m].obj_hits(ray@)) ==> ratio_lt(
                            self@[best_j].obj_hit_t(ray@),
                            self@[m].obj_hit_t(ray@),
                        )
                },
            decreases n - i,
        {
            let obj = &self.objects[i];
            let (h, topt, sopt) = obj.hit(ray);
            if h {
                let t = topt.unwrap();
                let s = sopt.unwrap();
                proof {
                    obj.obj_hit_properties(ray@);
                }
                let replace: bool = match &best_t {
                    None => true,
                    Some(bt) => {
                        proof {
                            self@[best_j].obj_hit_properties(ray@);
                        }
                        t.less_than(bt)
                    },
                };
                if replace {
                    proof {
                        if best_t is Some {
                            let old_j = best_j;
                            self@[old_j].obj_hit_properties(ray@);
                            assert forall|m: int|
                                0 <= m < i + 1 && (#[trigger] self@[m].obj_hits(ray@)) implies
                            ratio_le(self@[i as int].obj_hit_t(ray@), self@[m].obj_hit_t(ray@)) by {
                                self@[m].obj_hit_properties(ray@);
                                if m < i {
                                    crate::ratio::lemma_ratio_lt_le_trans(
                                        self@[i as int].obj_hit_t(ray@),
                                        self@[old_j].obj_hit_t(ray@),
                                        self@[m].obj_hit_t(ray@),
                                    );
                                }
                            }
                            assert forall|m: int|
                                0 <= m < i && (#[trigger] self@[m].obj_hits(ray@)) implies
                            ratio_lt(self@[i as int].obj_hit_t(ray@), self@[m].obj_hit_t(ray@)) by {
                                self@[m].obj_hit_properties(ray@);
                                crate::ratio::lemma_ratio_lt_le_trans(
                                    self@[i as int].obj_hit_t(ray@),
                                    self@[old_j].obj_hit_t(ray@),
                                    self@[m].obj_hit_t(ray@),
                                );
                            }
                        }
                        best_j = i as int;
                    }
                    best_t = Some(t);
                    best_s = Some(s);
                }
            }
            i += 1;
        }
        proof {
            if best_s is Some {
                assert(winner_index(self@, ray@, best_j));
            }
        }
        best_s
    }
}

} // verus!
