//! Three-component vectors over exact integer coordinates.
//!
//! Coordinates are integers on a grid of "ticks": any uniform scaling of the
//! scene.  Every operation states its result exactly, so the algebraic laws
//! of the vector engine (symmetry of the dot product, antisymmetry of the
//! cross product, how reflection treats the normal component) are theorems
//! here rather than approximations.

use vstd::prelude::*;

verus! {

/// Componentwise magnitude bound accepted by the nonlinear operations; wide
/// enough that intermediate products of bounded components fit in `i128`.
pub const MAX_COORD: i64 = 0x4000_0000_0000_0000;

#[derive(Clone, Copy, Debug, PartialEq, Eq, Structural)]
pub struct Vec3 {
    pub x: i64,
    pub y: i64,
    pub z: i64,
}

/// A point in space is a vector from the origin.
pub type Point3 = Vec3;

/// Every component lies within `MAX_COORD` in magnitude.
pub open spec fn bounded(v: Vec3) -> bool {
    &&& -(MAX_COORD as int) <= v.x <= MAX_COORD as int
    &&& -(MAX_COORD as int) <= v.y <= MAX_COORD as int
    &&& -(MAX_COORD as int) <= v.z <= MAX_COORD as int
}

pub open spec fn dot_spec(u: Vec3, v: Vec3) -> int {
    u.x * v.x + u.y * v.y + u.z * v.z
}

pub open spec fn cross_x(u: Vec3, v: Vec3) -> int {
    u.y * v.z - u.z * v.y
}

pub open spec fn cross_y(u: Vec3, v: Vec3) -> int {
    u.z * v.x - u.x * v.z
}

pub open spec fn cross_z(u: Vec3, v: Vec3) -> int {
    u.x * v.y - u.y * v.x
}

pub open spec fn reflect_x(v: Vec3, n: Vec3) -> int {
    v.x - 2 * dot_spec(v, n) * n.x
}

pub open spec fn reflect_y(v: Vec3, n: Vec3) -> int {
    v.y - 2 * dot_spec(v, n) * n.y
}

pub open spec fn reflect_z(v: Vec3, n: Vec3) -> int {
    v.z - 2 * dot_spec(v, n) * n.z
}

/// A vector with exact rational coordinates sharing one positive
/// denominator: the value is `num / den` componentwise.  Hit points and
/// surface normals, which arise from dividing integer vectors, live here.
#[derive(Clone, Copy, Debug)]
pub struct RatVec3 {
    pub num: Vec3,
    pub den: i64,
}

impl RatVec3 {
    pub open spec fn wf(self) -> bool {
        self.den > 0
    }

    /// Equality of the represented vectors; `(0,0,2)/2` equals `(0,0,1)/1`.
    pub fn eq_val(&self, other: &RatVec3) -> (r: bool)
        requires
            self.wf(),
            other.wf(),
        ensures
            r == rv_eq(*self, *other),
    {
        crate::rat::mul_i64(self.num.x, other.den) == crate::rat::mul_i64(other.num.x, self.den)
            && crate::rat::mul_i64(self.num.y, other.den) == crate::rat::mul_i64(
            other.num.y,
            self.den,
        ) && crate::rat::mul_i64(self.num.z, other.den) == crate::rat::mul_i64(
            other.num.z,
            self.den,
        )
    }

    /// Negate the represented vector.
    pub fn neg(&self) -> (r: RatVec3)
        requires
            self.num.x > i64::MIN,
            self.num.y > i64::MIN,
            self.num.z > i64::MIN,
        ensures
            r.num.x == -self.num.x,
            r.num.y == -self.num.y,
            r.num.z == -self.num.z,
            r.den == self.den,
    {
        RatVec3 { num: self.num.neg(), den: self.den }
    }

    /// The represented point quantized onto the scene grid: each component
    /// floored toward zero and saturated to the scene bound.
    pub fn quantize(&self) -> (r: Vec3)
        requires
            self.wf(),
        ensures
            r.x == clamp_scene(div_trunc(self.num.x as int, self.den as int)),
            r.y == clamp_scene(div_trunc(self.num.y as int, self.den as int)),
            r.z == clamp_scene(div_trunc(self.num.z as int, self.den as int)),
            -0x10000 <= r.x <= 0x10000,
            -0x10000 <= r.y <= 0x10000,
            -0x10000 <= r.z <= 0x10000,
    {
        Vec3 {
            x: clamp_div_scene(self.num.x as i128, self.den as i128),
            y: clamp_div_scene(self.num.y as i128, self.den as i128),
            z: clamp_div_scene(self.num.z as i128, self.den as i128),
        }
    }

    /// The represented direction scaled to the `0x10000`-tick grid: each
    /// component times `0x10000`, floored toward zero and saturated to the
    /// scene bound.
    pub fn direction_ticks(&self) -> (r: Vec3)
        requires
            self.wf(),
        ensures
            r.x == clamp_scene(div_trunc(self.num.x * 0x10000, self.den as int)),
            r.y == clamp_scene(div_trunc(self.num.y * 0x10000, self.den as int)),
            r.z == clamp_scene(div_trunc(self.num.z * 0x10000, self.den as int)),
            -0x10000 <= r.x <= 0x10000,
            -0x10000 <= r.y <= 0x10000,
            -0x10000 <= r.z <= 0x10000,
    {
        Vec3 {
            x: clamp_div_scene(crate::rat::mul_i64(self.num.x, 0x10000), self.den as i128),
            y: clamp_div_scene(crate::rat::mul_i64(self.num.y, 0x10000), self.den as i128),
            z: clamp_div_scene(crate::rat::mul_i64(self.num.z, 0x10000), self.den as i128),
        }
    }
}

/// The represented vectors are equal componentwise under cross-multiplication
/// by the (positive) denominators.
pub open spec fn rv_eq(a: RatVec3, b: RatVec3) -> bool {
    &&& a.num.x * b.den == b.num.x * a.den
    &&& a.num.y * b.den == b.num.y * a.den
    &&& a.num.z * b.den == b.num.z * a.den
}

impl Vec3 {
    pub fn new(x: i64, y: i64, z: i64) -> (r: Vec3)
        ensures
            r == (Vec3 { x, y, z }),
    {
        Vec3 { x, y, z }
    }

    pub fn add(&self, v: &Vec3) -> (r: Vec3)
        requires
            i64::MIN <= self.x + v.x <= i64::MAX,
            i64::MIN <= self.y + v.y <= i64::MAX,
            i64::MIN <= self.z + v.z <= i64::MAX,
        ensures
            r.x == self.x + v.x,
            r.y == self.y + v.y,
            r.z == self.z + v.z,
    {
        Vec3 { x: self.x + v.x, y: self.y + v.y, z: self.z + v.z }
    }

    pub fn sub(&self, v: &Vec3) -> (r: Vec3)
        requires
            i64::MIN <= self.x - v.x <= i64::MAX,
            i64::MIN <= self.y - v.y <= i64::MAX,
            i64::MIN <= self.z - v.z <= i64::MAX,
        ensures
            r.x == self.x - v.x,
            r.y == self.y - v.y,
            r.z == self.z - v.z,
    {
        Vec3 { x: self.x - v.x, y: self.y - v.y, z: self.z - v.z }
    }

    pub fn neg(&self) -> (r: Vec3)
        requires
            self.x > i64::MIN,
            self.y > i64::MIN,
            self.z > i64::MIN,
        ensures
            r.x == -self.x,
            r.y == -self.y,
            r.z == -self.z,
    {
        Vec3 { x: -self.x, y: -self.y, z: -self.z }
    }

    /// Componentwise product, as colors are attenuated.
    pub fn mul(&self, v: &Vec3) -> (r: Vec3)
        requires
            i64::MIN <= self.x * v.x <= i64::MAX,
            i64::MIN <= self.y * v.y <= i64::MAX,
            i64::MIN <= self.z * v.z <= i64::MAX,
        ensures
            r.x == self.x * v.x,
            r.y == self.y * v.y,
            r.z == self.z * v.z,
    {
        let x = crate::rat::mul_i64(self.x, v.x);
        let y = crate::rat::mul_i64(self.y, v.y);
        let z = crate::rat::mul_i64(self.z, v.z);
        Vec3 { x: x as i64, y: y as i64, z: z as i64 }
    }

    /// Scale by an integer factor.
    pub fn scale(&self, t: i64) -> (r: Vec3)
        requires
            i64::MIN <= self.x * t <= i64::MAX,
            i64::MIN <= self.y * t <= i64::MAX,
            i64::MIN <= self.z * t <= i64::MAX,
        ensures
            r.x == self.x * t,
            r.y == self.y * t,
            r.z == self.z * t,
    {
        let x = crate::rat::mul_i64(self.x, t);
        let y = crate::rat::mul_i64(self.y, t);
        let z = crate::rat::mul_i64(self.z, t);
        Vec3 { x: x as i64, y: y as i64, z: z as i64 }
    }

    pub fn dot(u: &Vec3, v: &Vec3) -> (r: i64)
        requires
            bounded(*u),
            bounded(*v),
            i64::MIN <= dot_spec(*u, *v) <= i64::MAX,
        ensures
            r == dot_spec(*u, *v),
    {
        let xx = crate::rat::mul_i64(u.x, v.x);
        let yy = crate::rat::mul_i64(u.y, v.y);
        let zz = crate::rat::mul_i64(u.z, v.z);
        proof {
            lemma_bounded_products(*u, *v);
        }
        (xx + yy + zz) as i64
    }

    pub fn cross(u: &Vec3, v: &Vec3) -> (r: Vec3)
        requires
            bounded(*u),
            bounded(*v),
            i64::MIN <= cross_x(*u, *v) <= i64::MAX,
            i64::MIN <= cross_y(*u, *v) <= i64::MAX,
            i64::MIN <= cross_z(*u, *v) <= i64::MAX,
        ensures
            r.x == cross_x(*u, *v),
            r.y == cross_y(*u, *v),
            r.z == cross_z(*u, *v),
    {
        proof {
            lemma_bounded_products(*u, *v);
            lemma_bounded_products(*v, *u);
        }
        let x = crate::rat::mul_i64(u.y, v.z) - crate::rat::mul_i64(u.z, v.y);
        let y = crate::rat::mul_i64(u.z, v.x) - crate::rat::mul_i64(u.x, v.z);
        let z = crate::rat::mul_i64(u.x, v.y) - crate::rat::mul_i64(u.y, v.x);
        Vec3 { x: x as i64, y: y as i64, z: z as i64 }
    }

    /// Squared Euclidean length, `dot(v, v)`.
    pub fn length_squared(&self) -> (r: i64)
        requires
            bounded(*self),
            dot_spec(*self, *self) <= i64::MAX,
        ensures
            r == dot_spec(*self, *self),
    {
        proof {
            lemma_dot_self_nonneg(*self);
        }
        Vec3::dot(self, self)
    }

    /// The degenerate-direction guard reports a vector whose every component
    /// lies below a small sub-tick threshold; on the integer grid only the
    /// zero vector does.
    pub fn near_zero(&self) -> (r: bool)
        ensures
            r == (self.x == 0 && self.y == 0 && self.z == 0),
    {
        self.x == 0 && self.y == 0 && self.z == 0
    }

    /// Reflection of `v` about the plane with normal `n`:
    /// `v - 2*dot(v, n)*n`.
    pub fn reflect(v: &Vec3, n: &Vec3) -> (r: Vec3)
        requires
            bounded(*v),
            bounded(*n),
            i64::MIN <= dot_spec(*v, *n) <= i64::MAX,
            i64::MIN <= reflect_x(*v, *n) <= i64::MAX,
            i64::MIN <= reflect_y(*v, *n) <= i64::MAX,
            i64::MIN <= reflect_z(*v, *n) <= i64::MAX,
        ensures
            r.x == reflect_x(*v, *n),
            r.y == reflect_y(*v, *n),
            r.z == reflect_z(*v, *n),
    {
        let d = Vec3::dot(v, n);
        proof {
            lemma_mul_by_bounded_fits(2 * d, n.x as int);
            lemma_mul_by_bounded_fits(2 * d, n.y as int);
            lemma_mul_by_bounded_fits(2 * d, n.z as int);
        }
        let x = (v.x as i128) - (2 * (d as i128)) * (n.x as i128);
        let y = (v.y as i128) - (2 * (d as i128)) * (n.y as i128);
        let z = (v.z as i128) - (2 * (d as i128)) * (n.z as i128);
        Vec3 { x: x as i64, y: y as i64, z: z as i64 }
    }
}

/// Products of bounded components stay far from the `i128` limits, so a
/// three-term dot or a two-term cross component never overflows the wide
/// accumulator.
proof fn lemma_bounded_products(u: Vec3, v: Vec3)
    by (nonlinear_arith)
    requires
        bounded(u),
        bounded(v),
    ensures
        -0x10000000000000000000000000000000int <= u.x * v.x
            <= 0x10000000000000000000000000000000int,
        -0x10000000000000000000000000000000int <= u.y * v.y
            <= 0x10000000000000000000000000000000int,
        -0x10000000000000000000000000000000int <= u.z * v.z
            <= 0x10000000000000000000000000000000int,
        -0x10000000000000000000000000000000int <= u.y * v.z
            <= 0x10000000000000000000000000000000int,
        -0x10000000000000000000000000000000int <= u.z * v.y
            <= 0x10000000000000000000000000000000int,
        -0x10000000000000000000000000000000int <= u.x * v.z
            <= 0x10000000000000000000000000000000int,
        -0x10000000000000000000000000000000int <= u.x * v.y
            <= 0x10000000000000000000000000000000int,
{
}

/// Rust's truncating integer division, for a positive divisor: toward zero,
/// not toward minus infinity.
pub open spec fn div_trunc(a: int, b: int) -> int {
    if a >= 0 {
        a / b
    } else {
        -((-a) / b)
    }
}

/// Dividing an exact multiple returns the factor, under truncation too.
pub proof fn lemma_div_trunc_exact(c: int, d: int)
    requires
        d > 0,
    ensures
        div_trunc(c * d, d) == c,
{
    vstd::arithmetic::mul::lemma_mul_is_commutative(c, d);
    if c * d >= 0 {
        vstd::arithmetic::div_mod::lemma_div_multiples_vanish(c, d);
    } else {
        vstd::arithmetic::div_mod::lemma_div_multiples_vanish(-c, d);
        assert(-(c * d) == d * -c) by (nonlinear_arith);
    }
}

/// Saturate a coordinate onto the scene grid (componentwise magnitude at
/// most `0x10000` ticks, the scene bound).
pub open spec fn clamp_scene(x: int) -> int {
    if x < -0x10000 {
        -0x10000
    } else if x > 0x10000 {
        0x10000
    } else {
        x
    }
}

/// Floor a fraction toward zero and saturate it onto the scene grid.
pub(crate) fn clamp_div_scene(num: i128, den: i128) -> (r: i64)
    requires
        den > 0,
        -0x80000000000000000000000000000000int < num,
    ensures
        r == clamp_scene(div_trunc(num as int, den as int)),
        -0x10000 <= r <= 0x10000,
{
    let q = if num >= 0 {
        num / den
    } else {
        -((-num) / den)
    };
    proof {
        if num >= 0 {
            vstd::arithmetic::div_mod::lemma_div_pos_is_pos(num as int, den as int);
            vstd::arithmetic::div_mod::lemma_fundamental_div_mod(num as int, den as int);
        } else {
            vstd::arithmetic::div_mod::lemma_div_pos_is_pos(-num as int, den as int);
            vstd::arithmetic::div_mod::lemma_fundamental_div_mod(-num as int, den as int);
        }
    }
    if q < -0x10000 {
        -0x10000
    } else if q > 0x10000 {
        0x10000
    } else {
        q as i64
    }
}

/// A nonzero integer vector has squared length at least 1.
pub proof fn lemma_nonzero_dot_pos(v: Vec3)
    by (nonlinear_arith)
    requires
        !(v.x == 0 && v.y == 0 && v.z == 0),
    ensures
        dot_spec(v, v) >= 1,
{
}

/// Scale a nonzero vector to length `0x10000` ticks, flooring each component
/// toward zero: component `c` becomes `c * 0x10000 / sqrt(|v|^2)` with the
/// floor square root.  Any `MAX_COORD`-bounded nonzero vector is accepted;
/// the result's components stay within `0x10000`.
pub fn normalize_ticks(v: &Vec3) -> (r: Vec3)
    requires
        bounded(*v),
        !(v.x == 0 && v.y == 0 && v.z == 0),
    ensures
        r.x == div_trunc(v.x * 0x10000, crate::sqrt::sqrt_floor(dot_spec(*v, *v))),
        r.y == div_trunc(v.y * 0x10000, crate::sqrt::sqrt_floor(dot_spec(*v, *v))),
        r.z == div_trunc(v.z * 0x10000, crate::sqrt::sqrt_floor(dot_spec(*v, *v))),
        -0x10000 <= r.x <= 0x10000,
        -0x10000 <= r.y <= 0x10000,
        -0x10000 <= r.z <= 0x10000,
{
    proof {
        lemma_nonzero_dot_pos(*v);
        lemma_bounded_products(*v, *v);
        assert(v.x * v.x >= 0 && v.y * v.y >= 0 && v.z * v.z >= 0) by (nonlinear_arith);
    }
    let d = crate::rat::mul_i64(v.x, v.x) + crate::rat::mul_i64(v.y, v.y) + crate::rat::mul_i64(
        v.z,
        v.z,
    );
    assert(d == dot_spec(*v, *v));
    let sq = crate::sqrt::isqrt(d as u128);
    proof {
        assert(sq < 0x8000000000000000int) by (nonlinear_arith)
            requires
                sq * sq <= d as u128,
                d as u128 <= 0x30000000000000000000000000000000int,
                sq >= 0,
        {
        }
    }
    let n = sq as i128;
    proof {
        crate::sqrt::lemma_sqrt_floor_bounds(d as int);
        assert(v.x * v.x <= dot_spec(*v, *v) && v.y * v.y <= dot_spec(*v, *v) && v.z * v.z
            <= dot_spec(*v, *v)) by (nonlinear_arith);
        assert(n >= 1) by (nonlinear_arith)
            requires
                n >= 0,
                d >= 1,
                d < (n + 1) * (n + 1),
        {
        }
        lemma_component_within_root(v.x as int, d as int, n as int);
        lemma_component_within_root(v.y as int, d as int, n as int);
        lemma_component_within_root(v.z as int, d as int, n as int);
        lemma_unit_quotient(v.x as int, n as int);
        lemma_unit_quotient(v.y as int, n as int);
        lemma_unit_quotient(v.z as int, n as int);
    }
    let wx = crate::rat::mul_i64(v.x, 0x10000);
    let wy = crate::rat::mul_i64(v.y, 0x10000);
    let wz = crate::rat::mul_i64(v.z, 0x10000);
    let rx = if wx >= 0 {
        wx / n
    } else {
        -((-wx) / n)
    };
    let ry = if wy >= 0 {
        wy / n
    } else {
        -((-wy) / n)
    };
    let rz = if wz >= 0 {
        wz / n
    } else {
        -((-wz) / n)
    };
    Vec3 { x: rx as i64, y: ry as i64, z: rz as i64 }
}

/// No component exceeds the floor square root of the squared length.
proof fn lemma_component_within_root(c: int, d: int, n: int)
    by (nonlinear_arith)
    requires
        c * c <= d,
        n >= 0,
        n * n <= d,
        d < (n + 1) * (n + 1),
    ensures
        -n <= c <= n,
{
}

/// Scaling a component within `n` by `0x10000` and flooring the quotient by
/// `n` stays within `0x10000`.
proof fn lemma_unit_quotient(c: int, n: int)
    requires
        1 <= n,
        -n <= c <= n,
    ensures
        -0x10000 <= div_trunc(c * 0x10000, n) <= 0x10000,
{
    if c >= 0 {
        assert(0 <= c * 0x10000 <= n * 0x10000) by (nonlinear_arith)
            requires
                0 <= c <= n,
        {
        }
        vstd::arithmetic::div_mod::lemma_fundamental_div_mod(c * 0x10000, n);
        vstd::arithmetic::div_mod::lemma_div_pos_is_pos(c * 0x10000, n);
        let q = c * 0x10000 / n;
        assert(q <= 0x10000) by (nonlinear_arith)
            requires
                1 <= n,
                c * 0x10000 <= n * 0x10000,
                c * 0x10000 == n * q + (c * 0x10000) % n,
                0 <= (c * 0x10000) % n,
        {
        }
    } else {
        assert(0 <= -c * 0x10000 <= n * 0x10000 && -(c * 0x10000) == -c * 0x10000)
            by (nonlinear_arith)
            requires
                0 <= -c <= n,
        {
        }
        vstd::arithmetic::div_mod::lemma_fundamental_div_mod(-c * 0x10000, n);
        vstd::arithmetic::div_mod::lemma_div_pos_is_pos(-c * 0x10000, n);
        let q = -c * 0x10000 / n;
        assert(q <= 0x10000) by (nonlinear_arith)
            requires
                1 <= n,
                -c * 0x10000 <= n * 0x10000,
                -c * 0x10000 == n * q + (-c * 0x10000) % n,
                0 <= (-c * 0x10000) % n,
        {
        }
    }
}

/// A doubled `i64` times a `MAX_COORD`-bounded factor leaves room for one
/// more bounded addend inside `i128`.
proof fn lemma_mul_by_bounded_fits(a: int, b: int)
    by (nonlinear_arith)
    requires
        -0x10000000000000000int <= a <= 0x10000000000000000int,
        -(MAX_COORD as int) <= b <= MAX_COORD as int,
    ensures
        -0x40000000000000000000000000000000int <= a * b
            <= 0x40000000000000000000000000000000int,
{
}

/// The dot product of a vector with itself is non-negative.
pub proof fn lemma_dot_self_nonneg(v: Vec3)
    by (nonlinear_arith)
    ensures
        dot_spec(v, v) >= 0,
{
}

/// The dot product is symmetric: `dot(u, v) == dot(v, u)`.
pub proof fn lemma_dot_symmetric(u: Vec3, v: Vec3)
    by (nonlinear_arith)
    ensures
        dot_spec(u, v) == dot_spec(v, u),
{
}

/// The cross product is antisymmetric: `cross(u, v) == -cross(v, u)`.
pub proof fn lemma_cross_antisymmetric(u: Vec3, v: Vec3)
    by (nonlinear_arith)
    ensures
        cross_x(u, v) == -cross_x(v, u),
        cross_y(u, v) == -cross_y(v, u),
        cross_z(u, v) == -cross_z(v, u),
{
}

/// A vector crossed with itself is the zero vector.
pub proof fn lemma_cross_self_zero(u: Vec3)
    by (nonlinear_arith)
    ensures
        cross_x(u, u) == 0,
        cross_y(u, u) == 0,
        cross_z(u, u) == 0,
{
}

/// Reflection about a unit normal flips the normal component of a vector
/// while preserving its magnitude: `dot(reflect(v, n), n) == -dot(v, n)`
/// whenever `dot(n, n) == 1`.
pub proof fn lemma_reflect_flips_normal_component(v: Vec3, n: Vec3)
    by (nonlinear_arith)
    requires
        dot_spec(n, n) == 1,
    ensures
        reflect_x(v, n) * n.x + reflect_y(v, n) * n.y + reflect_z(v, n) * n.z
            == -dot_spec(v, n),
{
}

} // verus!
