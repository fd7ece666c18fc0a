//! Snell-law refraction in vector form, on the exact grid.
//!
//! The incoming direction `uv` and the normal `n` are lattice vectors at a
//! caller-chosen scale `s` (a vector of length `s` ticks has unit physical
//! length).  The direction is decomposed into its component perpendicular to
//! the normal — scaled by the refraction ratio `eta` — and a parallel
//! component reconstructed from energy conservation, whose magnitude is
//! `sqrt(|1 - |perp|^2|)` (the absolute value guards grazing-angle
//! underflow); the square root is taken to `REFRACT_UNIT` precision.  Energy
//! conservation holds exactly: against a unit normal, outside total internal
//! reflection, the refracted direction never points back out of the surface.

use vstd::prelude::*;
use vstd::arithmetic::mul::{
    lemma_mul_is_associative, lemma_mul_is_distributive_add,
    lemma_mul_is_distributive_add_other_way, lemma_mul_is_distributive_sub_other_way,
    lemma_mul_nonnegative, lemma_mul_unary_negation,
};
use crate::rat::Rat;
use crate::sqrt::{isqrt, sqrt_floor};
use crate::vec3::{RatVec3, Vec3, dot_spec};

verus! {

/// Precision of the reconstructed parallel component, in ticks per unit.
pub const REFRACT_UNIT: i64 = 0x10000;

/// The clamped incidence cosine, in `s * s` ticks: `min(dot(-uv, n), 1)`.
pub open spec fn cos_ticks(uv: Vec3, n: Vec3, s: int) -> int {
    if -dot_spec(uv, n) > s * s {
        s * s
    } else {
        -dot_spec(uv, n)
    }
}

/// Numerator vector of the perpendicular component,
/// `eta * (uv + cos * n)` over the denominator `eta.den * s^3`.
pub open spec fn perp_num(uv: Vec3, n: Vec3, eta: Rat, s: int) -> (int, int, int) {
    let c = cos_ticks(uv, n, s);
    (
        eta.num * (uv.x * s * s + c * n.x),
        eta.num * (uv.y * s * s + c * n.y),
        eta.num * (uv.z * s * s + c * n.z),
    )
}

/// Denominator of the perpendicular component.
pub open spec fn perp_den(eta: Rat, s: int) -> int {
    eta.den * s * s * s
}

/// Length of the parallel component in `REFRACT_UNIT` ticks: the floor square
/// root of `|1 - |perp|^2|` at that precision.
pub open spec fn parallel_ticks(uv: Vec3, n: Vec3, eta: Rat, s: int) -> int {
    let (px, py, pz) = perp_num(uv, n, eta, s);
    let pd = perp_den(eta, s);
    let sum = px * px + py * py + pz * pz;
    let kd = pd * pd;
    let kn = if kd - sum >= 0 {
        kd - sum
    } else {
        sum - kd
    };
    sqrt_floor(kn * 0x100000000int / kd)
}

/// The refracted direction: the perpendicular component minus the parallel
/// component along the normal, over the denominator
/// `perp_den * REFRACT_UNIT * s`.
pub open spec fn refract_spec(uv: Vec3, n: Vec3, eta: Rat, s: int) -> RatVec3 {
    let (px, py, pz) = perp_num(uv, n, eta, s);
    let pd = perp_den(eta, s);
    let t = parallel_ticks(uv, n, eta, s);
    RatVec3 {
        num: Vec3 {
            x: (px * 0x10000 * s - t * n.x * pd) as i64,
            y: (py * 0x10000 * s - t * n.y * pd) as i64,
            z: (pz * 0x10000 * s - t * n.z * pd) as i64,
        },
        den: (pd * 0x10000 * s) as i64,
    }
}

/// Inputs the exact refraction accepts: a small scale, directions within it,
/// and a positive ratio no greater than 4 (glass and every physical medium
/// sit far below).
pub open spec fn refract_pre(uv: Vec3, n: Vec3, eta: Rat, s: int) -> bool {
    &&& 0 < s <= 0x100
    &&& -s <= uv.x <= s && -s <= uv.y <= s && -s <= uv.z <= s
    &&& -s <= n.x <= s && -s <= n.y <= s && -s <= n.z <= s
    &&& 0 < eta.num <= 0x400
    &&& 0 < eta.den <= 0x100
    &&& eta.num <= 4 * eta.den
}

/// A product's magnitude is bounded by the product of the factors' bounds.
proof fn lemma_abs_mul(a: int, b: int, ba: int, bb: int)
    by (nonlinear_arith)
    requires
        -ba <= a <= ba,
        -bb <= b <= bb,
        0 <= ba,
        0 <= bb,
    ensures
        -(ba * bb) <= a * b <= ba * bb,
{
}

/// Componentwise bounds give a dot-product bound of three squares.
proof fn lemma_dot_cube(u: Vec3, v: Vec3, b: int)
    by (nonlinear_arith)
    requires
        0 <= b,
        -b <= u.x <= b,
        -b <= u.y <= b,
        -b <= u.z <= b,
        -b <= v.x <= b,
        -b <= v.y <= b,
        -b <= v.z <= b,
    ensures
        -3 * (b * b) <= dot_spec(u, v) <= 3 * (b * b),
{
}

/// Refract `uv` about the normal `n` with ratio `eta`, exactly as
/// `refract_spec` states.  Against a unit normal and outside total internal
/// reflection, the result's component along the normal is non-positive:
/// the refracted ray continues into the surface (energy conservation).
pub fn refract(uv: &Vec3, n: &Vec3, eta: &Rat, s: i64) -> (r: RatVec3)
    requires
        refract_pre(*uv, *n, *eta, s as int),
    ensures
        r == refract_spec(*uv, *n, *eta, s as int),
        r.wf(),
        dot_spec(*n, *n) == s * s && -dot_spec(*uv, *n) <= s * s ==> dot_spec(r.num, *n) <= 0,
{
    proof {
        lemma_dot_cube(*uv, *n, s as int);
        lemma_abs_mul(s as int, s as int, 0x100, 0x100);
    }
    let d = Vec3::dot(uv, n);
    let ss: i64 = s * s;
    let c: i64 = if -d > ss {
        ss
    } else {
        -d
    };
    proof {
        assert(0 < (s as int) * (s as int)) by (nonlinear_arith)
            requires
                s > 0,
        {
        }
        assert(c == cos_ticks(*uv, *n, s as int));
        assert(-3 * ((s as int) * (s as int)) <= c <= (s as int) * (s as int));
        lemma_abs_mul(uv.x as int, s as int, s as int, s as int);
        lemma_abs_mul(uv.y as int, s as int, s as int, s as int);
        lemma_abs_mul(uv.z as int, s as int, s as int, s as int);
        lemma_abs_mul(uv.x * s, s as int, (s as int) * (s as int), s as int);
        lemma_abs_mul(uv.y * s, s as int, (s as int) * (s as int), s as int);
        lemma_abs_mul(uv.z * s, s as int, (s as int) * (s as int), s as int);
        lemma_abs_mul(c as int, n.x as int, 3 * ((s as int) * (s as int)), s as int);
        lemma_abs_mul(c as int, n.y as int, 3 * ((s as int) * (s as int)), s as int);
        lemma_abs_mul(c as int, n.z as int, 3 * ((s as int) * (s as int)), s as int);
        // All componentwise magnitudes now sit within 4 * s^3 <= 2^26.
        assert(((s as int) * (s as int)) * (s as int) <= 0x1000000int) by (nonlinear_arith)
            requires
                0 < s <= 0x100,
        {
        }
        assert(3 * ((s as int) * (s as int)) * (s as int) <= 0x3000000int) by (nonlinear_arith)
            requires
                0 < s <= 0x100,
        {
        }
    }
    let ix = (uv.x as i128) * (s as i128) * (s as i128) + (c as i128) * (n.x as i128);
    let iy = (uv.y as i128) * (s as i128) * (s as i128) + (c as i128) * (n.y as i128);
    let iz = (uv.z as i128) * (s as i128) * (s as i128) + (c as i128) * (n.z as i128);
    proof {
        lemma_abs_mul(eta.num as int, ix as int, 0x400, 0x4000000);
        lemma_abs_mul(eta.num as int, iy as int, 0x400, 0x4000000);
        lemma_abs_mul(eta.num as int, iz as int, 0x400, 0x4000000);
    }
    let px = (eta.num as i128) * ix;
    let py = (eta.num as i128) * iy;
    let pz = (eta.num as i128) * iz;
    proof {
        assert(0 < (eta.den as int) * (s as int) <= 0x10000int) by (nonlinear_arith)
            requires
                0 < eta.den <= 0x100,
                0 < s <= 0x100,
        {
        }
        assert(0 < (eta.den as int) * (s as int) * (s as int) <= 0x1000000int) by (nonlinear_arith)
            requires
                0 < (eta.den as int) * (s as int) <= 0x10000int,
                0 < s <= 0x100,
        {
        }
        assert(0 < (eta.den as int) * (s as int) * (s as int) * (s as int) <= 0x100000000int)
            by (nonlinear_arith)
            requires
                0 < (eta.den as int) * (s as int) * (s as int) <= 0x1000000int,
                0 < s <= 0x100,
        {
        }
    }
    let pd = (eta.den as i128) * (s as i128) * (s as i128) * (s as i128);
    proof {
        lemma_abs_mul(px as int, px as int, 0x1000000000, 0x1000000000);
        lemma_abs_mul(py as int, py as int, 0x1000000000, 0x1000000000);
        lemma_abs_mul(pz as int, pz as int, 0x1000000000, 0x1000000000);
        assert(px * px >= 0 && py * py >= 0 && pz * pz >= 0) by (nonlinear_arith);
        lemma_abs_mul(pd as int, pd as int, 0x100000000, 0x100000000);
        assert(pd * pd > 0) by (nonlinear_arith)
            requires
                pd > 0,
        {
        }
    }
    let sum = px * px + py * py + pz * pz;
    let kd = pd * pd;
    let kn = if kd - sum >= 0 {
        kd - sum
    } else {
        sum - kd
    };
    proof {
        lemma_perp_small(*uv, *n, *eta, s as int, px as int, py as int, pz as int, pd as int);
        assert(sum <= 0x300 * kd) by (nonlinear_arith)
            requires
                sum == px * px + py * py + pz * pz,
                px * px <= (16 * pd) * (16 * pd),
                py * py <= (16 * pd) * (16 * pd),
                pz * pz <= (16 * pd) * (16 * pd),
                kd == pd * pd,
                pd > 0,
        {
        }
        assert(0 <= kn <= 0x300 * kd);
        vstd::arithmetic::div_mod::lemma_fundamental_div_mod(kn * 0x100000000int, kd as int);
        assert(0 <= kn * 0x100000000int / (kd as int) <= 0x30000000000int) by (nonlinear_arith)
            requires
                kd > 0,
                kn >= 0,
                kn * 0x100000000int == kd * (kn * 0x100000000int / (kd as int)) + (kn
                    * 0x100000000int) % (kd as int),
                0 <= (kn * 0x100000000int) % (kd as int) < kd,
                kn <= 0x300 * kd,
        {
        }
    }
    let q: u128 = ((kn as u128) * 0x100000000u128) / (kd as u128);
    let t128 = isqrt(q);
    proof {
        assert(t128 < 0x200000int) by (nonlinear_arith)
            requires
                t128 * t128 <= q,
                q <= 0x30000000000int,
                t128 >= 0,
        {
        }
        assert(t128 == parallel_ticks(*uv, *n, *eta, s as int));
    }
    let t = t128 as i128;
    proof {
        lemma_abs_mul(px * 0x10000, s as int, 0x10000000000000, 0x100);
        lemma_abs_mul(py * 0x10000, s as int, 0x10000000000000, 0x100);
        lemma_abs_mul(pz * 0x10000, s as int, 0x10000000000000, 0x100);
        lemma_abs_mul(t as int, n.x as int, 0x200000, 0x100);
        lemma_abs_mul(t as int, n.y as int, 0x200000, 0x100);
        lemma_abs_mul(t as int, n.z as int, 0x200000, 0x100);
        lemma_abs_mul(t * n.x, pd as int, 0x20000000, 0x100000000);
        lemma_abs_mul(t * n.y, pd as int, 0x20000000, 0x100000000);
        lemma_abs_mul(t * n.z, pd as int, 0x20000000, 0x100000000);
        lemma_abs_mul(pd * 0x10000, s as int, 0x1000000000000, 0x100);
        assert(pd * 0x10000 * s > 0) by (nonlinear_arith)
            requires
                pd > 0,
                s > 0,
        {
        }
    }
    let rx = px * 0x10000 * (s as i128) - t * (n.x as i128) * pd;
    let ry = py * 0x10000 * (s as i128) - t * (n.y as i128) * pd;
    let rz = pz * 0x10000 * (s as i128) - t * (n.z as i128) * pd;
    let rden = pd * 0x10000 * (s as i128);
    let result = RatVec3 {
        num: Vec3 { x: rx as i64, y: ry as i64, z: rz as i64 },
        den: rden as i64,
    };
    proof {
        if dot_spec(*n, *n) == s * s && -dot_spec(*uv, *n) <= s * s {
            lemma_refract_energy(
                *uv,
                *n,
                *eta,
                s as int,
                px as int,
                py as int,
                pz as int,
                pd as int,
                t as int,
                rx as int,
                ry as int,
                rz as int,
            );
        }
    }
    result
}

/// The magnitude of a square is monotone in a bound on its base.
proof fn lemma_square_le(a: int, b: int)
    by (nonlinear_arith)
    requires
        -b <= a <= b,
    ensures
        a * a <= b * b,
{
}

/// One perpendicular numerator stays within 16 times the denominator,
/// because the ratio is at most 4 and the inner sum at most `4 s^3`.
proof fn lemma_perp_component_small(ux: int, nx: int, c: int, eta: Rat, s: int, p: int, pd: int)
    requires
        0 < s <= 0x100,
        -s <= ux <= s,
        -s <= nx <= s,
        -3 * (s * s) <= c <= 3 * (s * s),
        0 < eta.num,
        0 < eta.den,
        eta.num <= 4 * eta.den,
        p == eta.num * (ux * s * s + c * nx),
        pd == eta.den * s * s * s,
    ensures
        p * p <= (16 * pd) * (16 * pd),
{
    lemma_abs_mul(ux, s, s, s);
    lemma_abs_mul(ux * s, s, s * s, s);
    lemma_abs_mul(c, nx, 3 * (s * s), s);
    assert(3 * (s * s) * s == 3 * (s * s * s)) by (nonlinear_arith);
    assert(-(4 * (s * s * s)) <= ux * s * s + c * nx <= 4 * (s * s * s));
    lemma_abs_mul(eta.num as int, ux * s * s + c * nx, 4 * (eta.den as int), 4 * (s * s * s));
    assert((4 * eta.den) * (4 * (s * s * s)) == 16 * pd) by (nonlinear_arith)
        requires
            pd == eta.den * s * s * s,
    {
    }
    assert(16 * pd >= 0) by (nonlinear_arith)
        requires
            pd == eta.den * s * s * s,
            eta.den > 0,
            s > 0,
    {
    }
    lemma_square_le(p, 16 * pd);
}

/// The perpendicular numerators stay within 16 times the denominator.
proof fn lemma_perp_small(
    uv: Vec3,
    n: Vec3,
    eta: Rat,
    s: int,
    px: int,
    py: int,
    pz: int,
    pd: int,
)
    requires
        refract_pre(uv, n, eta, s),
        px == eta.num * (uv.x * s * s + cos_ticks(uv, n, s) * n.x),
        py == eta.num * (uv.y * s * s + cos_ticks(uv, n, s) * n.y),
        pz == eta.num * (uv.z * s * s + cos_ticks(uv, n, s) * n.z),
        pd == eta.den * s * s * s,
        -3 * (s * s) <= cos_ticks(uv, n, s) <= 3 * (s * s),
    ensures
        px * px <= (16 * pd) * (16 * pd),
        py * py <= (16 * pd) * (16 * pd),
        pz * pz <= (16 * pd) * (16 * pd),
{
    let c = cos_ticks(uv, n, s);
    lemma_perp_component_small(uv.x as int, n.x as int, c, eta, s, px, pd);
    lemma_perp_component_small(uv.y as int, n.y as int, c, eta, s, py, pd);
    lemma_perp_component_small(uv.z as int, n.z as int, c, eta, s, pz, pd);
}

/// Against a unit normal and outside total internal reflection the
/// perpendicular component is orthogonal to the normal, so the refracted
/// direction's component along the normal is the non-positive parallel part.
proof fn lemma_refract_energy(
    uv: Vec3,
    n: Vec3,
    eta: Rat,
    s: int,
    px: int,
    py: int,
    pz: int,
    pd: int,
    t: int,
    rx: int,
    ry: int,
    rz: int,
)
    requires
        refract_pre(uv, n, eta, s),
        dot_spec(n, n) == s * s,
        -dot_spec(uv, n) <= s * s,
        px == eta.num * (uv.x * s * s + cos_ticks(uv, n, s) * n.x),
        py == eta.num * (uv.y * s * s + cos_ticks(uv, n, s) * n.y),
        pz == eta.num * (uv.z * s * s + cos_ticks(uv, n, s) * n.z),
        pd == eta.den * s * s * s,
        pd > 0,
        t >= 0,
        rx == px * 0x10000 * s - t * n.x * pd,
        ry == py * 0x10000 * s - t * n.y * pd,
        rz == pz * 0x10000 * s - t * n.z * pd,
    ensures
        rx * n.x + ry * n.y + rz * n.z <= 0,
{
    let c = cos_ticks(uv, n, s);
    assert(c == -dot_spec(uv, n));
    lemma_energy_core(
        uv.x as int,
        uv.y as int,
        uv.z as int,
        n.x as int,
        n.y as int,
        n.z as int,
        c,
        eta.num as int,
        pd,
        t,
        s,
        px,
        py,
        pz,
        rx,
        ry,
        rz,
    );
}

/// The perpendicular numerators are orthogonal to a unit normal by
/// construction.
proof fn lemma_perp_orthogonal(
    ux: int,
    uy: int,
    uz: int,
    nx: int,
    ny: int,
    nz: int,
    c: int,
    en: int,
    s: int,
    px: int,
    py: int,
    pz: int,
)
    requires
        px == en * (ux * s * s + c * nx),
        py == en * (uy * s * s + c * ny),
        pz == en * (uz * s * s + c * nz),
        c == -(ux * nx + uy * ny + uz * nz),
        nx * nx + ny * ny + nz * nz == s * s,
    ensures
        px * nx + py * ny + pz * nz == 0,
{
    lemma_mul_is_associative(en, ux * s * s + c * nx, nx);
    lemma_mul_is_associative(en, uy * s * s + c * ny, ny);
    lemma_mul_is_associative(en, uz * s * s + c * nz, nz);
    lemma_mul_is_distributive_add_other_way(nx, ux * s * s, c * nx);
    lemma_mul_is_distributive_add_other_way(ny, uy * s * s, c * ny);
    lemma_mul_is_distributive_add_other_way(nz, uz * s * s, c * nz);
    lemma_mul_is_distributive_add(en, (ux * s * s) * nx, (c * nx) * nx);
    lemma_mul_is_distributive_add(en, (uy * s * s) * ny, (c * ny) * ny);
    lemma_mul_is_distributive_add(en, (uz * s * s) * nz, (c * nz) * nz);
    assert((ux * s * s) * nx == (ux * nx) * (s * s)) by (nonlinear_arith);
    assert((uy * s * s) * ny == (uy * ny) * (s * s)) by (nonlinear_arith);
    assert((uz * s * s) * nz == (uz * nz) * (s * s)) by (nonlinear_arith);
    assert((c * nx) * nx == c * (nx * nx)) by (nonlinear_arith);
    assert((c * ny) * ny == c * (ny * ny)) by (nonlinear_arith);
    assert((c * nz) * nz == c * (nz * nz)) by (nonlinear_arith);
    assert(px * nx + py * ny + pz * nz == en * ((ux * nx) * (s * s)) + en * (c * (nx * nx)) + en * (
        (uy * ny) * (s * s)) + en * (c * (ny * ny)) + en * ((uz * nz) * (s * s)) + en * (c * (nz
        * nz)));
    lemma_mul_is_distributive_add(en, (ux * nx) * (s * s), (uy * ny) * (s * s));
    lemma_mul_is_distributive_add(en, (ux * nx) * (s * s) + (uy * ny) * (s * s), (uz * nz) * (s * s));
    lemma_mul_is_distributive_add(en, c * (nx * nx), c * (ny * ny));
    lemma_mul_is_distributive_add(en, c * (nx * nx) + c * (ny * ny), c * (nz * nz));
    lemma_mul_is_distributive_add_other_way(s * s, ux * nx, uy * ny);
    lemma_mul_is_distributive_add_other_way(s * s, ux * nx + uy * ny, uz * nz);
    lemma_mul_is_distributive_add(c, nx * nx, ny * ny);
    lemma_mul_is_distributive_add(c, nx * nx + ny * ny, nz * nz);
    assert(px * nx + py * ny + pz * nz == en * ((ux * nx + uy * ny + uz * nz) * (s * s)) + en * (c
        * (s * s)));
    lemma_mul_unary_negation(c, s * s);
    lemma_mul_unary_negation(en, c * (s * s));
}

/// The component of the assembled direction along the normal splits into the
/// perpendicular part's component and the parallel pullback.
proof fn lemma_assemble_split(
    nx: int,
    ny: int,
    nz: int,
    pd: int,
    t: int,
    s: int,
    px: int,
    py: int,
    pz: int,
    rx: int,
    ry: int,
    rz: int,
)
    requires
        rx == px * 0x10000 * s - t * nx * pd,
        ry == py * 0x10000 * s - t * ny * pd,
        rz == pz * 0x10000 * s - t * nz * pd,
    ensures
        rx * nx + ry * ny + rz * nz == (px * nx + py * ny + pz * nz) * (0x10000 * s) - (t * pd) * (
        nx * nx + ny * ny + nz * nz),
{
    lemma_mul_is_distributive_sub_other_way(nx, px * 0x10000 * s, t * nx * pd);
    lemma_mul_is_distributive_sub_other_way(ny, py * 0x10000 * s, t * ny * pd);
    lemma_mul_is_distributive_sub_other_way(nz, pz * 0x10000 * s, t * nz * pd);
    assert((px * 0x10000 * s) * nx == (px * nx) * (0x10000 * s)) by (nonlinear_arith);
    assert((py * 0x10000 * s) * ny == (py * ny) * (0x10000 * s)) by (nonlinear_arith);
    assert((pz * 0x10000 * s) * nz == (pz * nz) * (0x10000 * s)) by (nonlinear_arith);
    assert((t * nx * pd) * nx == (t * pd) * (nx * nx)) by (nonlinear_arith);
    assert((t * ny * pd) * ny == (t * pd) * (ny * ny)) by (nonlinear_arith);
    assert((t * nz * pd) * nz == (t * pd) * (nz * nz)) by (nonlinear_arith);
    lemma_mul_is_distributive_add_other_way(0x10000 * s, px * nx, py * ny);
    lemma_mul_is_distributive_add_other_way(0x10000 * s, px * nx + py * ny, pz * nz);
    lemma_mul_is_distributive_add(t * pd, nx * nx, ny * ny);
    lemma_mul_is_distributive_add(t * pd, nx * nx + ny * ny, nz * nz);
}

/// The scalar heart of energy conservation: the perpendicular part
/// contributes nothing along the normal, the parallel pullback is
/// non-positive.
proof fn lemma_energy_core(
    ux: int,
    uy: int,
    uz: int,
    nx: int,
    ny: int,
    nz: int,
    c: int,
    en: int,
    pd: int,
    t: int,
    s: int,
    px: int,
    py: int,
    pz: int,
    rx: int,
    ry: int,
    rz: int,
)
    requires
        px == en * (ux * s * s + c * nx),
        py == en * (uy * s * s + c * ny),
        pz == en * (uz * s * s + c * nz),
        c == -(ux * nx + uy * ny + uz * nz),
        nx * nx + ny * ny + nz * nz == s * s,
        t >= 0,
        pd > 0,
        s > 0,
        rx == px * 0x10000 * s - t * nx * pd,
        ry == py * 0x10000 * s - t * ny * pd,
        rz == pz * 0x10000 * s - t * nz * pd,
    ensures
        rx * nx + ry * ny + rz * nz <= 0,
{
    lemma_perp_orthogonal(ux, uy, uz, nx, ny, nz, c, en, s, px, py, pz);
    lemma_assemble_split(nx, ny, nz, pd, t, s, px, py, pz, rx, ry, rz);
    lemma_mul_nonnegative(t, pd);
    lemma_mul_nonnegative(s, s);
    lemma_mul_nonnegative(t * pd, s * s);
    assert(0 * (0x10000 * s) == 0) by (nonlinear_arith);
}

} // verus!
