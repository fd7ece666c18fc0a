//! Parametric rays: origin plus a scaled direction.

use vstd::prelude::*;
use crate::rat::Rat;
use crate::vec3::{Point3, RatVec3, Vec3};

verus! {

/// Largest coordinate magnitude of a scene: centers, radii and ray
/// components all stay within it, so every intermediate of the intersection
/// arithmetic fits its machine type.
pub const SCENE_COORD: i64 = 0x10000;

/// Largest numerator or denominator magnitude of a ray parameter accepted by
/// `at`: intersection roots of scene-sized spheres stay well within it.
pub const PARAM_BOUND: i64 = 0x100_0000_0000;

/// Every component lies within the scene bound.
pub open spec fn scene_bounded(v: Vec3) -> bool {
    &&& -(SCENE_COORD as int) <= v.x <= SCENE_COORD as int
    &&& -(SCENE_COORD as int) <= v.y <= SCENE_COORD as int
    &&& -(SCENE_COORD as int) <= v.z <= SCENE_COORD as int
}

pub struct Ray {
    pub origin: Point3,
    pub direction: Vec3,
}

/// The point reached after `t` times the direction:
/// `(origin * t.den + t.num * direction) / t.den`.
pub open spec fn at_spec(r: Ray, t: Rat) -> RatVec3 {
    RatVec3 {
        num: Vec3 {
            x: (r.origin.x * t.den + t.num * r.direction.x) as i64,
            y: (r.origin.y * t.den + t.num * r.direction.y) as i64,
            z: (r.origin.z * t.den + t.num * r.direction.z) as i64,
        },
        den: t.den,
    }
}

impl Ray {
    /// Scene-sized coordinates and a direction that is not the zero vector:
    /// geometry construction never produces degenerate rays.
    pub open spec fn wf(self) -> bool {
        &&& scene_bounded(self.origin)
        &&& scene_bounded(self.direction)
        &&& !(self.direction.x == 0 && self.direction.y == 0 && self.direction.z == 0)
    }

    pub fn new(origin: Point3, direction: Vec3) -> (r: Ray)
        ensures
            r == (Ray { origin, direction }),
    {
        Ray { origin, direction }
    }

    pub fn origin(&self) -> (r: &Point3)
        ensures
            *r == self.origin,
    {
        &self.origin
    }

    pub fn direction(&self) -> (r: &Vec3)
        ensures
            *r == self.direction,
    {
        &self.direction
    }

    /// Evaluate the ray at parameter `t`.
    pub fn at(&self, t: &Rat) -> (r: RatVec3)
        requires
            t.wf(),
            scene_bounded(self.origin),
            scene_bounded(self.direction),
            -(PARAM_BOUND as int) <= t.num <= PARAM_BOUND as int,
            t.den <= PARAM_BOUND as int,
        ensures
            r == at_spec(*self, *t),
            r.wf(),
            -0x200000000000000int <= r.num.x <= 0x200000000000000int,
            -0x200000000000000int <= r.num.y <= 0x200000000000000int,
            -0x200000000000000int <= r.num.z <= 0x200000000000000int,
    {
        proof {
            lemma_at_fits(*self, *t);
        }
        let x = crate::rat::mul_i64(self.origin.x, t.den) + crate::rat::mul_i64(
            t.num,
            self.direction.x,
        );
        let y = crate::rat::mul_i64(self.origin.y, t.den) + crate::rat::mul_i64(
            t.num,
            self.direction.y,
        );
        let z = crate::rat::mul_i64(self.origin.z, t.den) + crate::rat::mul_i64(
            t.num,
            self.direction.z,
        );
        RatVec3 { num: Vec3 { x: x as i64, y: y as i64, z: z as i64 }, den: t.den }
    }
}

/// Scene-sized coordinates times bounded parameters stay far inside `i64`.
proof fn lemma_at_fits(r: Ray, t: Rat)
    by (nonlinear_arith)
    requires
        t.wf(),
        scene_bounded(r.origin),
        scene_bounded(r.direction),
        -(PARAM_BOUND as int) <= t.num <= PARAM_BOUND as int,
        t.den <= PARAM_BOUND as int,
    ensures
        -0x200000000000000int <= r.origin.x * t.den + t.num * r.direction.x <= 0x200000000000000int,
        -0x200000000000000int <= r.origin.y * t.den + t.num * r.direction.y <= 0x200000000000000int,
        -0x200000000000000int <= r.origin.z * t.den + t.num * r.direction.z <= 0x200000000000000int,
        -0x100000000000000int <= r.origin.x * t.den <= 0x100000000000000int,
        -0x100000000000000int <= r.origin.y * t.den <= 0x100000000000000int,
        -0x100000000000000int <= r.origin.z * t.den <= 0x100000000000000int,
        -0x100000000000000int <= t.num * r.direction.x <= 0x100000000000000int,
        -0x100000000000000int <= t.num * r.direction.y <= 0x100000000000000int,
        -0x100000000000000int <= t.num * r.direction.z <= 0x100000000000000int,
{
}

} // verus!
