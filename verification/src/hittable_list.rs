//! The scene container: a list of primitives with a nearest-hit query.

use crate::hittable::{HitRecord, Hittable};
use crate::ray::Ray;
use crate::sphere::{lemma_sphere_hit_shrink, sphere_hit_s, Sphere};
use vstd::prelude::*;

verus! {

/// An ordered collection of spheres supporting append and nearest-hit.
pub struct HittableList {
    pub objects: Vec<Sphere>,
}

/// The nearest-hit fold over the first `n` spheres: each sphere is queried
/// with the upper bound shrunk to the best parameter found so far, so the
/// final record (if any) is the nearest intersection along the ray.
pub open spec fn list_hit_s(objs: Seq<Sphere>, n: int, ray: Ray, t_min: int, t_max: int) -> Option<
    HitRecord,
>
    decreases n,
{
    if n <= 0 {
        None
    } else {
        let prev = list_hit_s(objs, n - 1, ray, t_min, t_max);
        let closest = match prev {
            Some(h) => h.t as int,
            None => t_max,
        };
        match sphere_hit_s(objs[n - 1], ray, t_min, closest) {
            Some(h) => Some(h),
            None => prev,
        }
    }
}

impl HittableList {
    /// An empty scene.
    pub fn new() -> (r: Self)
        ensures
            r.objects@.len() == 0,
    {
        Self { objects: Vec::new() }
    }

    /// Remove every primitive.
    pub fn clear(&mut self)
        ensures
            final (self).objects@.len() == 0,
    {
        self.objects.clear();
    }

    /// Append a primitive to the scene.
    pub fn add(&mut self, object: Sphere)
        ensures
            final (self).objects@ == old(self).objects@.push(object),
    {
        self.objects.push(object);
    }

    /// The nearest intersection over all primitives with parameter in
    /// `[t_min, t_max]`.
    pub fn hit(&self, ray: &Ray, t_min: i64, t_max: i64) -> (r: Option<HitRecord>)
        ensures
            r == list_hit_s(self.objects@, self.objects@.len() as int, *ray, t_min as int, t_max as int),
            r is Some ==> t_min <= r->Some_0.t <= t_max,
    {
        let mut res: Option<HitRecord> = None;
        let mut i: usize = 0;
        while i < self.objects.len()
            invariant
                i <= self.objects@.len(),
                res == list_hit_s(self.objects@, i as int, *ray, t_min as int, t_max as int),
                res is Some ==> t_min <= res->Some_0.t <= t_max,
            decreases self.objects@.len() - i,
        {
            let closest = match &res {
                Some(h) => h.get_t(),
                None => t_max,
            };
            match self.objects[i].hit(ray, t_min, closest) {
                Some(h) => {
                    res = Some(h);
                },
                None => {},
            }
            i = i + 1;
        }
        res
    }
}

/// Any record the nearest-hit fold returns has its parameter inside the
/// query interval.
pub proof fn lemma_list_hit_in_range(objs: Seq<Sphere>, n: int, ray: Ray, t_min: int, t_max: int)
    requires
        n <= objs.len(),
    ensures
        list_hit_s(objs, n, ray, t_min, t_max) is Some ==> t_min <= list_hit_s(
            objs,
            n,
            ray,
            t_min,
            t_max,
        )->Some_0.t <= t_max,
    decreases n,
{
    if n > 0 {
        lemma_list_hit_in_range(objs, n - 1, ray, t_min, t_max);
    }
}

/// The scene query finds the globally nearest intersection: whenever any
/// queried sphere accepts a hit over the full interval, the fold returns a
/// hit whose parameter is no larger.
pub proof fn lemma_list_hit_nearest(
    objs: Seq<Sphere>,
    n: int,
    ray: Ray,
    t_min: int,
    t_max: int,
    k: int,
)
    requires
        0 <= k < n <= objs.len(),
    ensures
        sphere_hit_s(objs[k], ray, t_min, t_max) is Some ==> list_hit_s(
            objs,
            n,
            ray,
            t_min,
            t_max,
        ) is Some && list_hit_s(objs, n, ray, t_min, t_max)->Some_0.t <= sphere_hit_s(
            objs[k],
            ray,
            t_min,
            t_max,
        )->Some_0.t,
    decreases n,
{
    if sphere_hit_s(objs[k], ray, t_min, t_max) is Some {
        let prev = list_hit_s(objs, n - 1, ray, t_min, t_max);
        lemma_list_hit_in_range(objs, n - 1, ray, t_min, t_max);
        let closest = match prev {
            Some(h) => h.t as int,
            None => t_max,
        };
        lemma_sphere_hit_shrink(objs[n - 1], ray, t_min, closest, t_max);
        if k < n - 1 {
            lemma_list_hit_nearest(objs, n - 1, ray, t_min, t_max, k);
        }
    }
}

/// Any record the nearest-hit fold returns carries the material of one of
/// the queried spheres.
pub proof fn lemma_list_hit_material(objs: Seq<Sphere>, n: int, ray: Ray, t_min: int, t_max: int)
    requires
        n <= objs.len(),
    ensures
        list_hit_s(objs, n, ray, t_min, t_max) is Some ==> exists|m: int|
            0 <= m < n && list_hit_s(objs, n, ray, t_min, t_max)->Some_0.material == #[trigger] objs[m].material,
    decreases n,
{
    if n > 0 {
        lemma_list_hit_material(objs, n - 1, ray, t_min, t_max);
        let prev = list_hit_s(objs, n - 1, ray, t_min, t_max);
        let closest = match prev {
            Some(h) => h.t as int,
            None => t_max,
        };
        match sphere_hit_s(objs[n - 1], ray, t_min, closest) {
            Some(h) => {
                assert(h.material == objs[n - 1].material);
            },
            None => {
                if prev is Some {
                    let m = choose|m: int|
                        0 <= m < n - 1 && prev->Some_0.material == #[trigger] objs[m].material;
                    assert(0 <= m < n && list_hit_s(objs, n, ray, t_min, t_max)->Some_0.material
                        == objs[m].material);
                }
            },
        }
    }
}

impl Hittable for HittableList {
    fn hit(&self, ray: &Ray, t_min: i64, t_max: i64) -> (r: Option<HitRecord>) {
        HittableList::hit(self, ray, t_min, t_max)
    }
}

} // verus!
