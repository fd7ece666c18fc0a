//! The sole scene primitive: a sphere, intersected by solving the quadratic
//! ray–sphere equation exactly.
//!
//! With `oc = center - origin`, the quadratic in the ray parameter `t` has
//! `a = |direction|^2`, half-coefficient `h = direction . oc` and
//! `c = |oc|^2 - radius^2`; its discriminant is `h^2 - a*c`.  A negative
//! discriminant is a miss.  Otherwise the smaller root `(h - sqrt)/a` is
//! tried first, then the larger; a root counts only when the query interval
//! strictly surrounds it.  On the integer grid the square root is the floor
//! square root, and the root is an exact rational.

use vstd::prelude::*;
use crate::hittable::{Face, HitRecord};
use crate::interval::{Interval, surrounds_spec};
use crate::rat::Rat;
use crate::ray::{PARAM_BOUND, Ray, SCENE_COORD, at_spec, scene_bounded};
use crate::sqrt::{isqrt, sqrt_floor};
use crate::vec3::{Point3, RatVec3, Vec3, dot_spec};

verus! {

#[derive(Clone, Copy)]
pub struct Sphere {
    pub center: Point3,
    pub radius: i64,
    pub material: usize,
}

/// `center - origin`, the vector from the ray origin to the sphere center.
pub open spec fn oc_of(s: Sphere, r: Ray) -> Vec3 {
    Vec3 {
        x: (s.center.x - r.origin.x) as i64,
        y: (s.center.y - r.origin.y) as i64,
        z: (s.center.z - r.origin.z) as i64,
    }
}

/// Leading quadratic coefficient: the squared length of the direction.
pub open spec fn a_of(r: Ray) -> int {
    dot_spec(r.direction, r.direction)
}

/// Half of the negated linear coefficient.
pub open spec fn h_of(s: Sphere, r: Ray) -> int {
    dot_spec(r.direction, oc_of(s, r))
}

/// Constant coefficient.
pub open spec fn c_of(s: Sphere, r: Ray) -> int {
    dot_spec(oc_of(s, r), oc_of(s, r)) - s.radius * s.radius
}

/// Discriminant of the half-coefficient form; negative exactly when the ray
/// misses the sphere.
pub open spec fn discriminant_of(s: Sphere, r: Ray) -> int {
    h_of(s, r) * h_of(s, r) - a_of(r) * c_of(s, r)
}

/// The smaller intersection root, `(h - sqrt(disc)) / a`.
pub open spec fn root1_of(s: Sphere, r: Ray) -> Rat {
    Rat {
        num: (h_of(s, r) - sqrt_floor(discriminant_of(s, r))) as i64,
        den: a_of(r) as i64,
    }
}

/// The larger intersection root, `(h + sqrt(disc)) / a`.
pub open spec fn root2_of(s: Sphere, r: Ray) -> Rat {
    Rat {
        num: (h_of(s, r) + sqrt_floor(discriminant_of(s, r))) as i64,
        den: a_of(r) as i64,
    }
}

/// The parameter at which the ray hits the sphere within the interval, if it
/// does: the smaller root when the interval surrounds it, else the larger
/// root when the interval surrounds that, else no hit.
pub open spec fn hit_t_of(s: Sphere, r: Ray, i: Interval) -> Option<Rat> {
    if discriminant_of(s, r) < 0 {
        None
    } else if surrounds_spec(i, root1_of(s, r)) {
        Some(root1_of(s, r))
    } else if surrounds_spec(i, root2_of(s, r)) {
        Some(root2_of(s, r))
    } else {
        None
    }
}

/// The outward normal at the hit for parameter `t`:
/// `(point - center) / radius`, of unit length since the radius divides a
/// vector of length `radius`.
pub open spec fn outward_normal_of(s: Sphere, r: Ray, t: Rat) -> RatVec3 {
    RatVec3 {
        num: Vec3 {
            x: (at_spec(r, t).num.x - s.center.x * t.den) as i64,
            y: (at_spec(r, t).num.y - s.center.y * t.den) as i64,
            z: (at_spec(r, t).num.z - s.center.z * t.den) as i64,
        },
        den: (t.den * s.radius) as i64,
    }
}

/// The record `hr` is exactly what intersecting `s` with `r` inside `i`
/// yields: the parameter `hit_t_of` selects, the point the ray reaches
/// there, the sphere's material handle, and the outward normal flipped to
/// oppose the ray.
pub open spec fn record_matches(s: Sphere, r: Ray, i: Interval, hr: HitRecord) -> bool {
    &&& hit_t_of(s, r, i) == Some(hr.t)
    &&& hr.t.wf()
    &&& -(PARAM_BOUND as int) <= hr.t.num <= PARAM_BOUND as int
    &&& hr.t.den <= PARAM_BOUND as int
    &&& surrounds_spec(i, hr.t)
    &&& hr.p == at_spec(r, hr.t)
    &&& hr.material == s.material
    &&& hr.normal.wf()
    &&& {
        let outward = outward_normal_of(s, r, hr.t);
        if dot_spec(r.direction, outward.num) < 0 {
            hr.face == Face::Front && hr.normal == outward
        } else {
            hr.face == Face::Back && hr.normal.num.x == -outward.num.x && hr.normal.num.y
                == -outward.num.y && hr.normal.num.z == -outward.num.z && hr.normal.den
                == outward.den
        }
    }
}

impl Sphere {
    /// A scene sphere: center on the scene grid, positive scene-sized radius.
    pub open spec fn wf(self) -> bool {
        scene_bounded(self.center) && 0 < self.radius <= SCENE_COORD as int
    }

    pub fn new(center: Point3, radius: i64, material: usize) -> (s: Sphere)
        requires
            scene_bounded(center),
            0 < radius <= SCENE_COORD as int,
        ensures
            s == (Sphere { center, radius, material }),
            s.wf(),
    {
        Sphere { center, radius, material }
    }

    /// Intersect the ray with this sphere inside `ray_t`.  The returned
    /// record, if any, carries exactly the parameter `hit_t_of` selects, the
    /// point the ray reaches there, this sphere's material handle, and the
    /// outward normal flipped to oppose the ray.
    pub fn hit(&self, r: &Ray, ray_t: &Interval) -> (res: Option<HitRecord>)
        requires
            self.wf(),
            r.wf(),
            ray_t.wf(),
        ensures
            res is None <==> hit_t_of(*self, *r, *ray_t) is None,
            res matches Some(hr) ==> record_matches(*self, *r, *ray_t, hr),
    {
        let oc = self.center.sub(&r.origin);
        proof {
            lemma_dot_bound(r.direction, r.direction, 0x10000, 0x10000);
            lemma_dot_bound(r.direction, oc, 0x10000, 0x20000);
            lemma_dot_bound(oc, oc, 0x20000, 0x20000);
            crate::vec3::lemma_nonzero_dot_pos(r.direction);
        }
        let a = Vec3::dot(&r.direction, &r.direction);
        let h = Vec3::dot(&r.direction, &oc);
        proof {
            assert(0 < self.radius * self.radius <= 0x100000000int) by (nonlinear_arith)
                requires
                    0 < self.radius <= 0x10000int,
            {
            }
        }
        let c = Vec3::dot(&oc, &oc) - self.radius * self.radius;
        proof {
            assert(-0x240000000000000000int <= h * h <= 0x240000000000000000int)
                by (nonlinear_arith)
                requires
                    -0x600000000int <= h <= 0x600000000int,
            {
            }
            assert(-0x270000000000000000int <= a * c <= 0x270000000000000000int)
                by (nonlinear_arith)
                requires
                    0 < a <= 0x300000000int,
                    -0xd00000000int <= c <= 0xd00000000int,
            {
            }
        }
        let disc: i128 = crate::rat::mul_i64(h, h) - crate::rat::mul_i64(a, c);
        assert(disc == discriminant_of(*self, *r));
        if disc < 0 {
            return None;
        }
        let sq = isqrt(disc as u128);
        proof {
            assert(sq < 0x1000000000int) by (nonlinear_arith)
                requires
                    sq * sq <= disc as u128,
                    disc as u128 <= 0x4b0000000000000000int,
                    sq >= 0,
            {
            }
        }
        let sqrtd: i64 = sq as u64 as i64;
        assert(sqrtd == sqrt_floor(discriminant_of(*self, *r)));

        let mut root = Rat::new(h - sqrtd, a);
        assert(root == root1_of(*self, *r));
        if !ray_t.surrounds(&root) {
            root = Rat::new(h + sqrtd, a);
            assert(root == root2_of(*self, *r));
            if !ray_t.surrounds(&root) {
                return None;
            }
        }
        assert(hit_t_of(*self, *r, *ray_t) == Some(root));

        let p = r.at(&root);
        proof {
            lemma_center_shift_fits(self.center, root, self.radius);
        }
        let nx = (p.num.x as i128) - crate::rat::mul_i64(self.center.x, root.den);
        let ny = (p.num.y as i128) - crate::rat::mul_i64(self.center.y, root.den);
        let nz = (p.num.z as i128) - crate::rat::mul_i64(self.center.z, root.den);
        let nden = crate::rat::mul_i64(root.den, self.radius);
        let outward = RatVec3 {
            num: Vec3 { x: nx as i64, y: ny as i64, z: nz as i64 },
            den: nden as i64,
        };
        assert(outward == outward_normal_of(*self, *r, root));
        let mut hr = HitRecord::new(p, outward, self.material, root, Face::Front);
        hr.set_face_normal(r, &outward);
        Some(hr)
    }
}

/// Magnitude bounds of the quadratic's pieces for scene-sized spheres and
/// rays; they keep every intersection intermediate inside its machine type
/// and the roots inside the ray-parameter bound.
pub proof fn lemma_quadratic_bounds(s: Sphere, r: Ray)
    requires
        s.wf(),
        r.wf(),
    ensures
        1 <= a_of(r) <= 0x300000000int,
        -0x600000000int <= h_of(s, r) <= 0x600000000int,
        -0xd00000000int <= c_of(s, r) <= 0xd00000000int,
        -0x4b0000000000000000int <= discriminant_of(s, r) <= 0x4b0000000000000000int,
        discriminant_of(s, r) >= 0 ==> 0 <= sqrt_floor(discriminant_of(s, r)) < 0x1000000000int,
        root1_of(s, r).wf(),
        root2_of(s, r).wf(),
        discriminant_of(s, r) >= 0 ==> root1_of(s, r).num == h_of(s, r) - sqrt_floor(
            discriminant_of(s, r),
        ),
        discriminant_of(s, r) >= 0 ==> root2_of(s, r).num == h_of(s, r) + sqrt_floor(
            discriminant_of(s, r),
        ),
        root1_of(s, r).den == a_of(r),
        root2_of(s, r).den == a_of(r),
{
    lemma_dot_bound(r.direction, r.direction, 0x10000, 0x10000);
    lemma_dot_bound(r.direction, oc_of(s, r), 0x10000, 0x20000);
    lemma_dot_bound(oc_of(s, r), oc_of(s, r), 0x20000, 0x20000);
    crate::vec3::lemma_nonzero_dot_pos(r.direction);
    let h = h_of(s, r);
    let a = a_of(r);
    let c = c_of(s, r);
    assert(0 < s.radius * s.radius <= 0x100000000int) by (nonlinear_arith)
        requires
            0 < s.radius <= 0x10000int,
    {
    }
    assert(-0x240000000000000000int <= h * h <= 0x240000000000000000int) by (nonlinear_arith)
        requires
            -0x600000000int <= h <= 0x600000000int,
    {
    }
    assert(-0x270000000000000000int <= a * c <= 0x270000000000000000int) by (nonlinear_arith)
        requires
            0 < a <= 0x300000000int,
            -0xd00000000int <= c <= 0xd00000000int,
    {
    }
    if discriminant_of(s, r) >= 0 {
        let d = discriminant_of(s, r);
        crate::sqrt::lemma_sqrt_floor_bounds(d);
        let sq = sqrt_floor(d);
        assert(sq < 0x1000000000int) by (nonlinear_arith)
            requires
                sq * sq <= d,
                d <= 0x4b0000000000000000int,
                sq >= 0,
        {
        }
    } else {
        crate::sqrt::lemma_sqrt_floor_bounds(0);
    }
}

/// Rationals over one positive denominator order as their numerators do.
proof fn lemma_rat_le_same_den(a: Rat, b: Rat)
    by (nonlinear_arith)
    requires
        a.den == b.den,
        a.den > 0,
        a.num <= b.num,
    ensures
        crate::rat::rat_le(a, b),
{
}

/// Widening the upper end of the query interval never changes a successful
/// hit: the same root is selected.
pub proof fn lemma_hit_widen(s: Sphere, r: Ray, i1: Interval, i2: Interval)
    requires
        s.wf(),
        r.wf(),
        i1.wf(),
        i2.wf(),
        i1.min == i2.min,
        crate::rat::rat_le(i1.max, i2.max),
        hit_t_of(s, r, i1) is Some,
    ensures
        hit_t_of(s, r, i2) == hit_t_of(s, r, i1),
{
    lemma_quadratic_bounds(s, r);
    let r1 = root1_of(s, r);
    let r2 = root2_of(s, r);
    lemma_rat_le_same_den(r1, r2);
    if surrounds_spec(i1, r1) {
        crate::rat::lemma_rat_lt_le_trans(r1, i1.max, i2.max);
    } else {
        // The larger root was selected: the smaller one fails the interval,
        // and since it precedes the larger root, it can only fail below.
        crate::rat::lemma_rat_lt_le_trans(r2, i1.max, i2.max);
        crate::rat::lemma_rat_total(i1.min, r1);
        crate::rat::lemma_rat_total(r1, i1.max);
        if crate::rat::rat_lt(i1.min, r1) {
            // r1 >= i1.max would put it above r2, which sits inside i1.
            crate::rat::lemma_rat_lt_le_trans(r2, i1.max, r1);
            assert(!crate::rat::rat_lt(r2, r1) || !crate::rat::rat_le(r1, r2)) by {
                crate::rat::lemma_rat_total(r1, r2);
            }
            assert(!surrounds_spec(i2, r1)) by {
                crate::rat::lemma_rat_total(i2.min, r1);
            }
        } else {
            assert(!surrounds_spec(i2, r1));
        }
    }
}

/// Narrowing the upper end of the query interval to a value at or below
/// every hit it excludes: a miss in the narrow interval puts any hit of the
/// wide interval at or beyond the narrow upper end.
pub proof fn lemma_hit_none_narrow(s: Sphere, r: Ray, i1: Interval, i2: Interval)
    requires
        s.wf(),
        r.wf(),
        i1.wf(),
        i2.wf(),
        i1.min == i2.min,
        crate::rat::rat_le(i1.max, i2.max),
        hit_t_of(s, r, i1) is None,
    ensures
        hit_t_of(s, r, i2) matches Some(t) ==> crate::rat::rat_le(i1.max, t),
{
    lemma_quadratic_bounds(s, r);
    let r1 = root1_of(s, r);
    let r2 = root2_of(s, r);
    if hit_t_of(s, r, i2) is Some {
        if surrounds_spec(i2, r1) {
            crate::rat::lemma_rat_total(r1, i1.max);
        } else {
            crate::rat::lemma_rat_total(r2, i1.max);
        }
    }
}

/// A dot product of componentwise-bounded vectors is bounded by three times
/// the product of the bounds.
proof fn lemma_dot_bound(u: Vec3, v: Vec3, b1: int, b2: int)
    by (nonlinear_arith)
    requires
        b1 >= 0,
        b2 >= 0,
        -b1 <= u.x <= b1,
        -b1 <= u.y <= b1,
        -b1 <= u.z <= b1,
        -b2 <= v.x <= b2,
        -b2 <= v.y <= b2,
        -b2 <= v.z <= b2,
    ensures
        -3 * b1 * b2 <= dot_spec(u, v) <= 3 * b1 * b2,
{
}

/// The normal numerators `p.num - center * t.den` and the denominator
/// `t.den * radius` of a scene-sized hit stay far inside `i64`.
proof fn lemma_center_shift_fits(center: Point3, t: Rat, radius: i64)
    by (nonlinear_arith)
    requires
        scene_bounded(center),
        0 < radius <= SCENE_COORD as int,
        0 < t.den <= PARAM_BOUND as int,
    ensures
        -0x1000000000000000int <= center.x * t.den <= 0x1000000000000000int,
        -0x1000000000000000int <= center.y * t.den <= 0x1000000000000000int,
        -0x1000000000000000int <= center.z * t.den <= 0x1000000000000000int,
        0 < t.den * radius <= 0x1000000000000000int,
{
}

} // verus!
