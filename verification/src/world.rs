//! The scene aggregate: an ordered list of spheres scanned linearly for the
//! nearest valid hit.
//!
//! The scan keeps tightening the upper end of the search interval to the
//! closest hit found so far, and the returned record is proved to be the
//! globally nearest hit along the ray within the original interval.

use vstd::prelude::*;
use crate::hittable::HitRecord;
use crate::interval::Interval;
use crate::rat::{Rat, rat_le, rat_lt};
use crate::ray::Ray;
use crate::sphere::{Sphere, hit_t_of, lemma_hit_none_narrow, lemma_hit_widen, record_matches};

verus! {

pub struct World {
    pub spheres: Vec<Sphere>,
}

impl World {
    /// Every sphere of the scene is well-formed.
    pub open spec fn wf(self) -> bool {
        forall|i: int| 0 <= i < self.spheres.len() ==> (#[trigger] self.spheres[i]).wf()
    }

    pub fn new() -> (w: World)
        ensures
            w.spheres@ =~= Seq::<Sphere>::empty(),
            w.wf(),
    {
        World { spheres: Vec::new() }
    }

    pub fn push(&mut self, s: Sphere)
        requires
            s.wf(),
            old(self).wf(),
        ensures
            final(self).spheres@ == old(self).spheres@.push(s),
            final(self).wf(),
    {
        self.spheres.push(s);
    }

    /// Nearest hit of the ray against the whole scene within `ray_t`: the
    /// returned record is a genuine per-sphere hit for the original
    /// interval, and its parameter is at or below every sphere's own hit
    /// parameter there; a miss means no sphere hits inside the interval.
    pub fn hit(&self, r: &Ray, ray_t: &Interval) -> (res: Option<HitRecord>)
        requires
            self.wf(),
            r.wf(),
            ray_t.wf(),
        ensures
            res is None ==> forall|i: int|
                0 <= i < self.spheres.len() ==> hit_t_of(self.spheres[i], *r, *ray_t) is None,
            res matches Some(hr) ==> {
                &&& exists|i: int|
                    0 <= i < self.spheres.len() && record_matches(
                        #[trigger] self.spheres[i],
                        *r,
                        *ray_t,
                        hr,
                    )
                &&& forall|i: int|
                    0 <= i < self.spheres.len() ==> (hit_t_of(
                        #[trigger] self.spheres[i],
                        *r,
                        *ray_t,
                    ) matches Some(t) ==> rat_le(hr.t, t))
            },
    {
        let mut result: Option<HitRecord> = None;
        let mut closest: Rat = ray_t.max;
        let mut k: usize = 0;
        while k < self.spheres.len()
            invariant
                self.wf(),
                r.wf(),
                ray_t.wf(),
                0 <= k <= self.spheres.len(),
                closest.wf(),
                result is None ==> closest == ray_t.max,
                result is None ==> forall|i: int|
                    0 <= i < k ==> hit_t_of(self.spheres[i], *r, *ray_t) is None,
                result matches Some(hr) ==> {
                    &&& hr.t == closest
                    &&& rat_le(closest, ray_t.max)
                    &&& exists|i: int|
                        0 <= i < k && record_matches(#[trigger] self.spheres[i], *r, *ray_t, hr)
                },
                forall|i: int|
                    0 <= i < k ==> (hit_t_of(#[trigger] self.spheres[i], *r, *ray_t) matches Some(
                        t,
                    ) ==> rat_le(closest, t)),
            decreases self.spheres.len() - k,
        {
            let shrunk = Interval::new(ray_t.min, closest);
            proof {
                if result is Some {
                    crate::rat::lemma_rat_total(ray_t.max, closest);
                }
            }
            match self.spheres[k].hit(r, &shrunk) {
                Some(hr2) => {
                    proof {
                        lemma_hit_widen(self.spheres[k as int], *r, shrunk, *ray_t);
                        assert forall|i: int|
                            0 <= i < k + 1 implies (hit_t_of(
                            #[trigger] self.spheres[i],
                            *r,
                            *ray_t,
                        ) matches Some(t) ==> rat_le(hr2.t, t)) by {
                            if i < k {
                                if hit_t_of(self.spheres[i], *r, *ray_t) is Some {
                                    let t = hit_t_of(self.spheres[i], *r, *ray_t)->Some_0;
                                    crate::rat::lemma_rat_lt_le_trans(hr2.t, closest, t);
                                }
                            }
                        }
                        // The record found under the shrunk interval is the
                        // very hit of this sphere under the original one.
                        crate::rat::lemma_rat_lt_le_trans(hr2.t, closest, ray_t.max);
                    }
                    closest = hr2.t;
                    result = Some(hr2);
                },
                None => {
                    proof {
                        lemma_hit_none_narrow(self.spheres[k as int], *r, shrunk, *ray_t);
                    }
                },
            }
            k += 1;
        }
        result
    }
}

} // verus!
