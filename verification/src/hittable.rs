//! The record a successful ray–primitive intersection produces.

use vstd::prelude::*;
use crate::rat::Rat;
use crate::ray::{Ray, scene_bounded};
use crate::vec3::{RatVec3, bounded, dot_spec};

verus! {

/// Which side of the surface the ray struck: the outside (front) or the
/// inside (back), relative to the outward normal.
#[derive(Clone, Copy, Debug, PartialEq, Eq, Structural)]
pub enum Face {
    Front,
    Back,
}

/// Where and how a ray intersected a primitive.  The stored normal is the
/// outward normal flipped, if need be, to oppose the incoming ray; `material`
/// is the handle of the surface material in the scene's arena.
pub struct HitRecord {
    pub p: RatVec3,
    pub normal: RatVec3,
    pub material: usize,
    pub t: Rat,
    pub face: Face,
}

impl HitRecord {
    pub fn new(p: RatVec3, normal: RatVec3, material: usize, t: Rat, face: Face) -> (r: HitRecord)
        ensures
            r == (HitRecord { p, normal, material, t, face }),
    {
        HitRecord { p, normal, material, t, face }
    }

    /// Record which face was struck and store the normal opposing the ray:
    /// the outward normal itself when the ray arrives from outside
    /// (`dot(direction, outward) < 0`), its negation otherwise.
    pub fn set_face_normal(&mut self, r: &Ray, outward_normal: &RatVec3)
        requires
            scene_bounded(r.direction),
            bounded(outward_normal.num),
            outward_normal.wf(),
        ensures
            final(self).p == old(self).p,
            final(self).material == old(self).material,
            final(self).t == old(self).t,
            dot_spec(r.direction, outward_normal.num) < 0 ==> {
                &&& final(self).face == Face::Front
                &&& final(self).normal == *outward_normal
            },
            dot_spec(r.direction, outward_normal.num) >= 0 ==> {
                &&& final(self).face == Face::Back
                &&& final(self).normal.num.x == -outward_normal.num.x
                &&& final(self).normal.num.y == -outward_normal.num.y
                &&& final(self).normal.num.z == -outward_normal.num.z
                &&& final(self).normal.den == outward_normal.den
            },
            final(self).normal.wf(),
    {
        proof {
            lemma_face_dot_fits(r.direction, outward_normal.num);
        }
        let d = crate::rat::mul_i64(r.direction.x, outward_normal.num.x) + crate::rat::mul_i64(
            r.direction.y,
            outward_normal.num.y,
        ) + crate::rat::mul_i64(r.direction.z, outward_normal.num.z);
        if d < 0 {
            self.face = Face::Front;
            self.normal = *outward_normal;
        } else {
            self.face = Face::Back;
            self.normal = outward_normal.neg();
        }
    }
}

/// Products of a scene-sized direction with bounded normal components stay
/// far inside `i128`, so their three-term sum cannot overflow.
proof fn lemma_face_dot_fits(d: crate::vec3::Vec3, n: crate::vec3::Vec3)
    by (nonlinear_arith)
    requires
        scene_bounded(d),
        bounded(n),
    ensures
        -0x100000000000000000000int <= d.x * n.x <= 0x100000000000000000000int,
        -0x100000000000000000000int <= d.y * n.y <= 0x100000000000000000000int,
        -0x100000000000000000000int <= d.z * n.z <= 0x100000000000000000000int,
{
}

} // verus!
