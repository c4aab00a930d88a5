//! The nearest-intersection record threaded through a scene query, and the
//! scene collection that aggregates the nearest hit over all of its spheres.

use vstd::prelude::*;
use crate::vector::{Vec3, dot_spec};
use crate::ray::Ray;
use crate::interval::Interval;
use crate::sphere::Sphere;
use crate::material::Material;

verus! {

/// The single closest intersection found so far during a scene query.
/// `mat` indexes the scene's material table.
#[derive(Clone, Copy, Debug, PartialEq, Eq, Structural)]
pub struct HitRecord {
    pub point: Vec3,
    pub normal: Vec3,
    pub t: i64,
    pub front_face: bool,
    pub mat: Option<usize>,
}

impl HitRecord {
    pub open spec fn wf(self) -> bool {
        self.point.wf() && self.normal.wf()
    }

    pub open spec fn new_spec() -> HitRecord {
        HitRecord {
            point: Vec3 { x: 0i64, y: 0i64, z: 0i64 },
            normal: Vec3 { x: 0i64, y: crate::scalar::ONE, z: 0i64 },
            t: 0i64,
            front_face: true,
            mat: None,
        }
    }

    pub fn new() -> (r: HitRecord)
        ensures
            r == Self::new_spec(),
    {
        HitRecord {
            point: Vec3 { x: 0, y: 0, z: 0 },
            normal: Vec3 { x: 0, y: crate::scalar::ONE, z: 0 },
            t: 0,
            front_face: true,
            mat: None,
        }
    }

    /// The record after reorienting an outward normal against the ray:
    /// `front_face` says whether the outward normal opposes the ray, and the
    /// stored normal is flipped when it does not.
    pub open spec fn with_face_normal_spec(self, ray: Ray, outward_normal: Vec3) -> HitRecord {
        let front = dot_spec(ray.direction, outward_normal) < 0;
        HitRecord {
            front_face: front,
            normal: if front {
                outward_normal
            } else {
                outward_normal.neg_spec()
            },
            ..self
        }
    }

    /// Record whether the hit was on the front face, storing a normal that
    /// always opposes the incoming ray.
    pub fn set_face_normal(&mut self, ray: Ray, outward_normal: Vec3)
        requires
            ray.wf(),
            outward_normal.wf(),
        ensures
            *final(self) == old(self).with_face_normal_spec(ray, outward_normal),
    {
        self.front_face = ray.direction.dot(outward_normal) < 0;
        self.normal = if self.front_face {
            outward_normal
        } else {
            outward_normal.neg()
        };
    }
}

/// What one scene traversal step-by-step does to the closest-hit state:
/// each sphere in turn tightens the interval and overwrites the record when
/// it reports a nearer hit.  The third component says whether anything hit.
pub open spec fn scene_fold_spec(spheres: Seq<Sphere>, ray: Ray, iv: Interval, rec: HitRecord) -> (
    Interval,
    HitRecord,
    bool,
)
    decreases spheres.len(),
{
    if spheres.len() == 0 {
        (iv, rec, false)
    } else {
        let first = spheres[0];
        match first.hit_t_spec(ray, iv) {
            Some(t) => {
                let iv2 = Interval { lower_bound: iv.lower_bound, upper_bound: t as i64 };
                let rec2 = first.hit_record_for_spec(ray, t);
                let rest = scene_fold_spec(spheres.drop_first(), ray, iv2, rec2);
                (rest.0, rest.1, true)
            },
            None => scene_fold_spec(spheres.drop_first(), ray, iv, rec),
        }
    }
}

/// The record a scene traversal leaves behind stays well formed, and its
/// material index stays inside a table that every sphere's index is inside.
pub proof fn lemma_scene_fold_record(
    spheres: Seq<Sphere>,
    ray: Ray,
    iv: Interval,
    rec: HitRecord,
    mlen: int,
)
    requires
        rec.wf(),
        match rec.mat {
            Some(mi) => mi < mlen,
            None => true,
        },
        forall|i: int| 0 <= i < spheres.len() ==> (#[trigger] spheres[i]).mat < mlen,
    ensures
        scene_fold_spec(spheres, ray, iv, rec).1.wf(),
        match scene_fold_spec(spheres, ray, iv, rec).1.mat {
            Some(mi) => mi < mlen,
            None => true,
        },
    decreases spheres.len(),
{
    if spheres.len() > 0 {
        let f = spheres[0];
        let rest = spheres.drop_first();
        assert(forall|i: int| 0 <= i < rest.len() ==> (#[trigger] rest[i]).mat < mlen) by {
            assert(forall|i: int|
                0 <= i < rest.len() ==> rest[i] == spheres[i + 1] && (#[trigger] spheres[i
                    + 1]).mat < mlen);
        }
        match f.hit_t_spec(ray, iv) {
            Some(t) => {
                let iv2 = Interval { lower_bound: iv.lower_bound, upper_bound: t as i64 };
                let rec2 = f.hit_record_for_spec(ray, t);
                assert(rec2.wf());
                lemma_scene_fold_record(rest, ray, iv2, rec2, mlen);
            },
            None => {
                lemma_scene_fold_record(rest, ray, iv, rec, mlen);
            },
        }
    }
}

/// Closest-hit invariant: traversing a scene leaves the interval's lower
/// bound alone and tightens its upper bound to exactly the minimum of the
/// per-sphere hits as each would be computed individually against the
/// starting interval; the final record's `t` attains that minimum.  Nothing
/// here mentions the traversal order, so any permutation of the spheres
/// yields the same hit parameter.
pub proof fn lemma_first_hit_closest(spheres: Seq<Sphere>, ray: Ray, iv: Interval, rec: HitRecord)
    ensures
        scene_fold_spec(spheres, ray, iv, rec).0.lower_bound == iv.lower_bound,
        scene_fold_spec(spheres, ray, iv, rec).0.upper_bound <= iv.upper_bound,
        forall|i: int|
            0 <= i < spheres.len() ==> match #[trigger] spheres[i].hit_t_spec(ray, iv) {
                Some(ti) => scene_fold_spec(spheres, ray, iv, rec).0.upper_bound <= ti,
                None => true,
            },
        scene_fold_spec(spheres, ray, iv, rec).2 ==> exists|i: int|
            0 <= i < spheres.len() && #[trigger] spheres[i].hit_t_spec(ray, iv) == Some(
                scene_fold_spec(spheres, ray, iv, rec).1.t as int,
            ),
        scene_fold_spec(spheres, ray, iv, rec).2 ==> scene_fold_spec(spheres, ray, iv, rec).1.t
            == scene_fold_spec(spheres, ray, iv, rec).0.upper_bound,
        !scene_fold_spec(spheres, ray, iv, rec).2 ==> scene_fold_spec(spheres, ray, iv, rec) == (
        iv,
        rec,
        false,
        ),
    decreases spheres.len(),
{
    if spheres.len() == 0 {
    } else {
        let f = spheres[0];
        let rest = spheres.drop_first();
        let folded = scene_fold_spec(spheres, ray, iv, rec);
        match f.hit_t_spec(ray, iv) {
            Some(t) => {
                crate::sphere::lemma_hit_t_in_range(f, ray, iv);
                let iv2 = Interval { lower_bound: iv.lower_bound, upper_bound: t as i64 };
                let rec2 = f.hit_record_for_spec(ray, t);
                lemma_first_hit_closest(rest, ray, iv2, rec2);
                let sub = scene_fold_spec(rest, ray, iv2, rec2);
                assert(folded == (sub.0, sub.1, true));
                assert forall|i: int|
                    0 <= i < spheres.len() implies match #[trigger] spheres[i].hit_t_spec(ray,
                    iv) {
                    Some(ti) => folded.0.upper_bound <= ti,
                    None => true,
                } by {
                    if i == 0 {
                    } else {
                        assert(spheres[i] == rest[i - 1]);
                        crate::sphere::lemma_hit_t_narrower(rest[i - 1], ray, iv, iv2);
                        let mi2 = rest[i - 1].hit_t_spec(ray, iv2);
                        assert(match mi2 {
                            Some(t2) => sub.0.upper_bound <= t2,
                            None => true,
                        });
                    }
                }
                if sub.2 {
                    let j = choose|j: int|
                        0 <= j < rest.len() && #[trigger] rest[j].hit_t_spec(ray, iv2) == Some(
                            sub.1.t as int,
                        );
                    crate::sphere::lemma_hit_t_narrower(rest[j], ray, iv, iv2);
                    assert(spheres[j + 1] == rest[j]);
                    assert(spheres[j + 1].hit_t_spec(ray, iv) == Some(folded.1.t as int));
                } else {
                    assert(folded.1 == rec2);
                    assert(folded.1.t as int == t);
                    assert(spheres[0].hit_t_spec(ray, iv) == Some(folded.1.t as int));
                }
            },
            None => {
                lemma_first_hit_closest(rest, ray, iv, rec);
                let sub = scene_fold_spec(rest, ray, iv, rec);
                assert(folded == sub);
                assert forall|i: int|
                    0 <= i < spheres.len() implies match #[trigger] spheres[i].hit_t_spec(ray,
                    iv) {
                    Some(ti) => folded.0.upper_bound <= ti,
                    None => true,
                } by {
                    if i > 0 {
                        assert(spheres[i] == rest[i - 1]);
                        let mi = rest[i - 1].hit_t_spec(ray, iv);
                        assert(match mi {
                            Some(ti) => sub.0.upper_bound <= ti,
                            None => true,
                        });
                    }
                }
                if sub.2 {
                    let j = choose|j: int|
                        0 <= j < rest.len() && #[trigger] rest[j].hit_t_spec(ray, iv) == Some(
                            sub.1.t as int,
                        );
                    assert(spheres[j + 1] == rest[j]);
                    assert(spheres[j + 1].hit_t_spec(ray, iv) == Some(folded.1.t as int));
                }
            },
        }
    }
}

/// A scene: an ordered collection of spheres, and the material table their
/// material indices point into.  Materials are shared by index, so many
/// spheres can reference one material value.
pub struct HittableList {
    pub hittables: Vec<Sphere>,
    pub materials: Vec<Material>,
}

impl HittableList {
    /// Every sphere is well formed and points at a material in the table;
    /// every material is well formed.
    pub open spec fn wf(self) -> bool {
        &&& forall|i: int|
            0 <= i < self.hittables@.len() ==> (#[trigger] self.hittables@[i]).wf()
                && self.hittables@[i].mat < self.materials@.len()
        &&& forall|i: int| 0 <= i < self.materials@.len() ==> (#[trigger] self.materials@[i]).wf()
    }

    /// An empty scene.
    pub fn new() -> (s: HittableList)
        ensures
            s.hittables@.len() == 0,
            s.materials@.len() == 0,
            s.wf(),
    {
        HittableList { hittables: Vec::new(), materials: Vec::new() }
    }

    /// Register a material and hand back its index, for spheres to share.
    pub fn add_material(&mut self, m: Material) -> (idx: usize)
        requires
            old(self).wf(),
            m.wf(),
        ensures
            final(self).materials@ == old(self).materials@.push(m),
            final(self).hittables@ == old(self).hittables@,
            idx as int == old(self).materials@.len(),
            final(self).wf(),
    {
        let idx: usize = self.materials.len();
        self.materials.push(m);
        idx
    }

    /// Append a sphere; its material index must already be registered.
    pub fn add(&mut self, hittable: Sphere)
        requires
            old(self).wf(),
            hittable.wf(),
            hittable.mat < old(self).materials@.len(),
        ensures
            final(self).hittables@ == old(self).hittables@.push(hittable),
            final(self).materials@ == old(self).materials@,
            final(self).wf(),
    {
        self.hittables.push(hittable);
    }

    /// Drop every sphere; the material table stays.
    pub fn clear(&mut self)
        requires
            old(self).wf(),
        ensures
            final(self).hittables@.len() == 0,
            final(self).materials@ == old(self).materials@,
            final(self).wf(),
    {
        self.hittables.clear();
    }

    /// The material a hit record's index refers to.
    pub fn material_at(&self, idx: usize) -> (m: Material)
        requires
            self.wf(),
            idx < self.materials@.len(),
        ensures
            m == self.materials@[idx as int],
            m.wf(),
    {
        self.materials[idx]
    }

    /// Ask every member for the nearest hit, threading one interval and one
    /// record through the whole scene; true iff at least one member hit.
    /// Because the interval tightens monotonically, the final record is the
    /// globally nearest intersection regardless of traversal order.
    pub fn first_hit_on_interval(&self, ray: Ray, interval: &mut Interval, hit_record: &mut HitRecord) -> (hit: bool)
        requires
            self.wf(),
            ray.wf(),
        ensures
            ({
                let folded = scene_fold_spec(self.hittables@, ray, *old(interval), *old(
                hit_record));
                *final(interval) == folded.0 && *final(hit_record) == folded.1 && hit == folded.2
            }),
    {
        let ghost iv0 = *interval;
        let ghost rec0 = *hit_record;
        let mut hit_anything: bool = false;
        let n: usize = self.hittables.len();
        let mut i: usize = 0;
        proof {
            assert(self.hittables@.skip(0) =~= self.hittables@);
        }
        while i < n
            invariant
                0 <= i <= n,
                n == self.hittables@.len(),
                self.wf(),
                ray.wf(),
                ({
                    let rest = scene_fold_spec(self.hittables@.skip(i as int), ray, *interval,
                        *hit_record);
                    let whole = scene_fold_spec(self.hittables@, ray, iv0, rec0);
                    whole.0 == rest.0 && whole.1 == rest.1 && whole.2 == (hit_anything || rest.2)
                }),
            decreases n - i,
        {
            let ghost pre_iv = *interval;
            let ghost pre_rec = *hit_record;
            let s: &Sphere = &self.hittables[i];
            if s.first_hit_on_interval(ray, interval, hit_record) {
                hit_anything = true;
            }
            proof {
                assert(self.hittables@.skip(i as int).drop_first() =~= self.hittables@.skip(
                    i as int + 1));
                assert(self.hittables@.skip(i as int)[0] == self.hittables@[i as int]);
            }
            i = i + 1;
        }
        proof {
            assert(self.hittables@.skip(n as int).len() == 0);
        }
        hit_anything
    }
}

} // verus!
