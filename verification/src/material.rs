//! Surface materials and the exact parts of their scattering laws.
//!
//! The three variants are diffuse (Lambertian), fuzzy-specular (Metal, fuzz
//! clamped to at most 1 at construction) and refractive (Dielectric).  Given
//! unit lattice directions — normalization is the one irrational step, done
//! outside — each law's perturbation, acceptance test and branching is exact
//! here: the diffuse perturbation with its degenerate-direction fallback,
//! the fuzzy perturbation with the into-the-surface rejection, and the
//! dielectric's refraction ratio by struck face, total-internal-reflection
//! test, Schlick reflectance comparison against a random draw, and the
//! reflected or exactly refracted direction.

use vstd::prelude::*;
use crate::hittable::Face;
use crate::rat::{Rat, rat_lt};
use crate::refract::{cos_ticks, refract, refract_spec};
use crate::vec3::{RatVec3, Vec3, clamp_div_scene, clamp_scene, div_trunc, dot_spec};

verus! {

/// A diffuse surface: always scatters, attenuating by its albedo.
pub struct Lambertian {
    pub albedo: RatVec3,
}

impl Lambertian {
    pub fn new(albedo: RatVec3) -> (r: Lambertian)
        ensures
            r.albedo == albedo,
    {
        Lambertian { albedo }
    }
}

/// A reflective surface perturbed by `fuzz` times a random unit vector.
pub struct Metal {
    pub albedo: RatVec3,
    pub fuzz: Rat,
}

impl Metal {
    /// The fuzz is clamped to at most 1 at construction.
    pub fn new(albedo: RatVec3, fuzz: Rat) -> (r: Metal)
        requires
            fuzz.wf(),
        ensures
            r.albedo == albedo,
            r.fuzz.wf(),
            r.fuzz == if rat_lt(Rat { num: 1, den: 1 }, fuzz) {
                Rat { num: 1, den: 1 }
            } else {
                fuzz
            },
    {
        let one = Rat::from_int(1);
        if one.lt(&fuzz) {
            Metal { albedo, fuzz: one }
        } else {
            Metal { albedo, fuzz }
        }
    }
}

/// A refractive surface with the given index; glass absorbs nothing.
pub struct Dielectric {
    pub refraction_index: Rat,
}

impl Dielectric {
    pub fn new(refraction_index: Rat) -> (r: Dielectric)
        ensures
            r.refraction_index == refraction_index,
    {
        Dielectric { refraction_index }
    }

    /// The effective refraction ratio: the reciprocal of the index on a
    /// front-face entry (air into the medium), the index itself on a
    /// back-face exit.
    pub fn refraction_ratio(&self, face: Face) -> (r: Rat)
        requires
            self.refraction_index.num > 0,
            self.refraction_index.den > 0,
        ensures
            face == Face::Front ==> r == (Rat {
                num: self.refraction_index.den,
                den: self.refraction_index.num,
            }),
            face == Face::Back ==> r == self.refraction_index,
            r.wf(),
    {
        match face {
            Face::Front => Rat::new(self.refraction_index.den, self.refraction_index.num),
            Face::Back => self.refraction_index,
        }
    }
}

/// Snell's law has no solution when `ratio * sin_theta > 1`; with
/// `sin_theta^2 = 1 - cos_theta^2` and everything non-negative, squaring
/// gives the exact integer test below.
pub open spec fn tir_spec(cos_theta: Rat, ratio: Rat) -> bool {
    (ratio.num * ratio.num) * (cos_theta.den * cos_theta.den - cos_theta.num * cos_theta.num)
        > (ratio.den * ratio.den) * (cos_theta.den * cos_theta.den)
}

/// Whether refraction is geometrically impossible (total internal
/// reflection), decided exactly.
pub fn total_internal_reflection(cos_theta: &Rat, ratio: &Rat) -> (r: bool)
    requires
        0 < cos_theta.den <= 0x10000,
        -cos_theta.den <= cos_theta.num <= cos_theta.den,
        0 < ratio.num <= 0x10000,
        0 < ratio.den <= 0x10000,
    ensures
        r == tir_spec(*cos_theta, *ratio),
{
    let cn = cos_theta.num as i128;
    let cd = cos_theta.den as i128;
    let rn = ratio.num as i128;
    let rd = ratio.den as i128;
    proof {
        lemma_tir_fits(rn as int, rd as int, cn as int, cd as int);
    }
    (rn * rn) * (cd * cd - cn * cn) > (rd * rd) * (cd * cd)
}

/// The cross-multiplied total-internal-reflection test stays far inside
/// `i128`.
proof fn lemma_tir_fits(rn: int, rd: int, cn: int, cd: int)
    by (nonlinear_arith)
    requires
        0 < rn <= 0x10000,
        0 < rd <= 0x10000,
        0 < cd <= 0x10000,
        -cd <= cn <= cd,
    ensures
        0 < rn * rn <= 0x100000000int,
        0 < rd * rd <= 0x100000000int,
        0 < cd * cd <= 0x100000000int,
        0 <= cn * cn <= 0x100000000int,
        -0x10000000000000000int <= (rn * rn) * (cd * cd - cn * cn) <= 0x10000000000000000int,
        0 < (rd * rd) * (cd * cd) <= 0x10000000000000000int,
{
}

/// Schlick's approximation of the Fresnel reflectance, compared with a
/// uniform draw: with `r0 = ((1 - ratio) / (1 + ratio))^2`, the reflectance
/// `r0 + (1 - r0) * (1 - cos_theta)^5` exceeds the draw exactly when the
/// integer cross-multiplication below holds.
pub open spec fn schlick_reflects_spec(cos_theta: Rat, ratio: Rat, draw: Rat) -> bool {
    let a = (ratio.den + ratio.num) * (ratio.den + ratio.num);
    let b = (ratio.den - ratio.num) * (ratio.den - ratio.num);
    let g = cos_theta.den - cos_theta.num;
    let g5 = g * g * g * g * g;
    let cd5 = cos_theta.den * cos_theta.den * cos_theta.den * cos_theta.den * cos_theta.den;
    (b * cd5 + (a - b) * g5) * draw.den > draw.num * (a * cd5)
}

/// Decide the reflect-or-refract branch of a dielectric: reflect when the
/// Schlick reflectance exceeds the uniform draw.
pub fn schlick_reflects(cos_theta: &Rat, ratio: &Rat, draw: &Rat) -> (r: bool)
    requires
        0 < cos_theta.den <= 0x10000,
        -cos_theta.den <= cos_theta.num <= cos_theta.den,
        0 < ratio.num <= 0x100,
        0 < ratio.den <= 0x100,
        0 < draw.den <= 0x10000,
        0 <= draw.num <= draw.den,
    ensures
        r == schlick_reflects_spec(*cos_theta, *ratio, *draw),
{
    let cn = cos_theta.num as i128;
    let cd = cos_theta.den as i128;
    let rn = ratio.num as i128;
    let rd = ratio.den as i128;
    proof {
        lemma_square_small(rd + rn);
        lemma_square_small(rd - rn);
    }
    let a = (rd + rn) * (rd + rn);
    let b = (rd - rn) * (rd - rn);
    let g = cd - cn;
    proof {
        lemma_pow_small(g as int, 0x20000);
        lemma_pow_small(cd as int, 0x10000);
    }
    let g2 = g * g;
    let g4 = g2 * g2;
    let g5 = g4 * g;
    let cd2 = cd * cd;
    let cd4 = cd2 * cd2;
    let cd5 = cd4 * cd;
    proof {
        assert(g2 == g * g && g4 == g * g * g * g && g5 == g * g * g * g * g) by (nonlinear_arith)
            requires
                g2 == g * g,
                g4 == g2 * g2,
                g5 == g4 * g,
        {
        }
        assert(cd2 == cd * cd && cd4 == cd * cd * cd * cd && cd5 == cd * cd * cd * cd * cd)
            by (nonlinear_arith)
            requires
                cd2 == cd * cd,
                cd4 == cd2 * cd2,
                cd5 == cd4 * cd,
        {
        }
        lemma_schlick_fits(
            a as int,
            b as int,
            g5 as int,
            cd5 as int,
            draw.num as int,
            draw.den as int,
        );
    }
    (b * cd5 + (a - b) * g5) * (draw.den as i128) > (draw.num as i128) * (a * cd5)
}

/// The square of a ratio-sized base stays within `2^18`.
proof fn lemma_square_small(g: int)
    by (nonlinear_arith)
    requires
        -0x200 <= g <= 0x200,
    ensures
        0 <= g * g <= 0x40000int,
{
}

/// Powers up to the fifth of a cosine-grid base stay far inside `i128`.
proof fn lemma_pow_small(g: int, bound: int)
    requires
        -bound <= g <= bound,
        0 < bound <= 0x20000,
    ensures
        0 <= g * g <= 0x400000000int,
        0 <= (g * g) * (g * g) <= 0x100000000000000000int,
        -0x2000000000000000000000int <= ((g * g) * (g * g)) * g <= 0x2000000000000000000000int,
{
    assert(0 <= g * g <= 0x400000000int) by (nonlinear_arith)
        requires
            -0x20000 <= g <= 0x20000,
    {
    }
    lemma_product_bound(g * g, g * g, 0x400000000, 0x400000000);
    assert(0 <= (g * g) * (g * g)) by (nonlinear_arith);
    assert(0x400000000int * 0x400000000int == 0x100000000000000000int) by (nonlinear_arith);
    lemma_product_bound((g * g) * (g * g), g, 0x100000000000000000, 0x20000);
    assert(0x100000000000000000int * 0x20000int == 0x2000000000000000000000int)
        by (nonlinear_arith);
}

/// A product's magnitude is bounded by the product of the factors' bounds.
proof fn lemma_product_bound(a: int, b: int, ba: int, bb: int)
    by (nonlinear_arith)
    requires
        -ba <= a <= ba,
        -bb <= b <= bb,
        0 <= ba,
        0 <= bb,
    ensures
        -(ba * bb) <= a * b <= ba * bb,
{
}

/// The cross-multiplied Schlick comparison stays far inside `i128`.
proof fn lemma_schlick_fits(a: int, b: int, g5: int, cd5: int, dn: int, dd: int)
    by (nonlinear_arith)
    requires
        0 <= a <= 0x40000,
        0 <= b <= 0x40000,
        -0x2000000000000000000000int <= g5 <= 0x2000000000000000000000int,
        -0x2000000000000000000000int <= cd5 <= 0x2000000000000000000000int,
        0 <= dn <= 0x10000,
        0 < dd <= 0x10000,
    ensures
        -0x80000000000000000000000000int <= b * cd5 <= 0x80000000000000000000000000int,
        -0x80000000000000000000000000int <= (a - b) * g5 <= 0x80000000000000000000000000int,
        -0x1000000000000000000000000000000int <= (b * cd5 + (a - b) * g5) * dd
            <= 0x1000000000000000000000000000000int,
        -0x1000000000000000000000000000000int <= dn * (a * cd5)
            <= 0x1000000000000000000000000000000int,
        -0x80000000000000000000000000int <= a * cd5 <= 0x80000000000000000000000000int,
{
}

/// The diffuse scatter direction: the unit normal plus a unit sample, or the
/// normal itself when the sum degenerates to the zero vector.
pub open spec fn lambertian_dir_spec(unit_normal: Vec3, unit_sample: Vec3) -> Vec3 {
    let d = Vec3 {
        x: (unit_normal.x + unit_sample.x) as i64,
        y: (unit_normal.y + unit_sample.y) as i64,
        z: (unit_normal.z + unit_sample.z) as i64,
    };
    if d.x == 0 && d.y == 0 && d.z == 0 {
        unit_normal
    } else {
        d
    }
}

/// Diffuse scattering: the direction is the normal perturbed by a random
/// unit sample (cosine-weighted approximation), falling back to the normal
/// when the two cancel; the attenuation is the fixed albedo.  Always
/// scatters.
pub fn lambertian_scatter(albedo: &RatVec3, unit_normal: &Vec3, unit_sample: &Vec3) -> (r: (
    RatVec3,
    Vec3,
))
    requires
        -0x10000 <= unit_normal.x <= 0x10000,
        -0x10000 <= unit_normal.y <= 0x10000,
        -0x10000 <= unit_normal.z <= 0x10000,
        -0x10000 <= unit_sample.x <= 0x10000,
        -0x10000 <= unit_sample.y <= 0x10000,
        -0x10000 <= unit_sample.z <= 0x10000,
    ensures
        r.0 == *albedo,
        r.1 == lambertian_dir_spec(*unit_normal, *unit_sample),
{
    let x = unit_normal.x + unit_sample.x;
    let y = unit_normal.y + unit_sample.y;
    let z = unit_normal.z + unit_sample.z;
    if x == 0 && y == 0 && z == 0 {
        (*albedo, *unit_normal)
    } else {
        (*albedo, Vec3 { x, y, z })
    }
}

/// The metal scatter direction: the unit reflection perturbed by `fuzz`
/// times a unit sample, each perturbation component floored toward zero.
pub open spec fn metal_dir_spec(fuzz: Rat, unit_reflected: Vec3, unit_sample: Vec3) -> Vec3 {
    Vec3 {
        x: (unit_reflected.x + div_trunc(fuzz.num * unit_sample.x, fuzz.den as int)) as i64,
        y: (unit_reflected.y + div_trunc(fuzz.num * unit_sample.y, fuzz.den as int)) as i64,
        z: (unit_reflected.z + div_trunc(fuzz.num * unit_sample.z, fuzz.den as int)) as i64,
    }
}

/// Fuzzy-specular scattering: perturb the unit reflection by `fuzz` times a
/// random unit sample; reject the scatter (absorption) when the perturbed
/// direction points into the surface.
pub fn metal_scatter(
    albedo: &RatVec3,
    fuzz: &Rat,
    unit_reflected: &Vec3,
    unit_sample: &Vec3,
    unit_normal: &Vec3,
) -> (r: Option<(RatVec3, Vec3)>)
    requires
        0 <= fuzz.num <= fuzz.den,
        0 < fuzz.den <= 0x10000,
        -0x10000 <= unit_reflected.x <= 0x10000,
        -0x10000 <= unit_reflected.y <= 0x10000,
        -0x10000 <= unit_reflected.z <= 0x10000,
        -0x10000 <= unit_sample.x <= 0x10000,
        -0x10000 <= unit_sample.y <= 0x10000,
        -0x10000 <= unit_sample.z <= 0x10000,
        -0x10000 <= unit_normal.x <= 0x10000,
        -0x10000 <= unit_normal.y <= 0x10000,
        -0x10000 <= unit_normal.z <= 0x10000,
    ensures
        ({
            let d = metal_dir_spec(*fuzz, *unit_reflected, *unit_sample);
            if dot_spec(d, *unit_normal) > 0 {
                r == Some((*albedo, d))
            } else {
                r is None
            }
        }),
{
    proof {
        lemma_fuzz_quotient(fuzz.num as int, fuzz.den as int, unit_sample.x as int);
        lemma_fuzz_quotient(fuzz.num as int, fuzz.den as int, unit_sample.y as int);
        lemma_fuzz_quotient(fuzz.num as int, fuzz.den as int, unit_sample.z as int);
    }
    let qx = fuzz_perturb(fuzz, unit_sample.x);
    let qy = fuzz_perturb(fuzz, unit_sample.y);
    let qz = fuzz_perturb(fuzz, unit_sample.z);
    let d = Vec3 {
        x: unit_reflected.x + qx,
        y: unit_reflected.y + qy,
        z: unit_reflected.z + qz,
    };
    proof {
        lemma_scatter_dot_fits(d, *unit_normal);
    }
    let dn = crate::rat::mul_i64(d.x, unit_normal.x) + crate::rat::mul_i64(d.y, unit_normal.y)
        + crate::rat::mul_i64(d.z, unit_normal.z);
    if dn > 0 {
        Some((*albedo, d))
    } else {
        None
    }
}

/// One component of the fuzz perturbation, floored toward zero.
fn fuzz_perturb(fuzz: &Rat, s: i64) -> (q: i64)
    requires
        0 <= fuzz.num <= fuzz.den,
        0 < fuzz.den <= 0x10000,
        -0x10000 <= s <= 0x10000,
    ensures
        q == div_trunc(fuzz.num * s, fuzz.den as int),
        -0x10000 <= q <= 0x10000,
{
    proof {
        lemma_fuzz_quotient(fuzz.num as int, fuzz.den as int, s as int);
        assert(-0x100000000int <= fuzz.num * s <= 0x100000000int) by (nonlinear_arith)
            requires
                0 <= fuzz.num <= 0x10000,
                -0x10000 <= s <= 0x10000,
        {
        }
    }
    let w = crate::rat::mul_i64(fuzz.num, s);
    let q = if w >= 0 {
        w / (fuzz.den as i128)
    } else {
        -((-w) / (fuzz.den as i128))
    };
    q as i64
}

/// A fuzz perturbation component stays within one unit of ticks.
proof fn lemma_fuzz_quotient(f: int, d: int, s: int)
    requires
        0 <= f <= d,
        0 < d <= 0x10000,
        -0x10000 <= s <= 0x10000,
    ensures
        -0x10000 <= div_trunc(f * s, d) <= 0x10000,
{
    if s >= 0 {
        assert(0 <= f * s <= d * 0x10000) by (nonlinear_arith)
            requires
                0 <= f <= d,
                0 <= s <= 0x10000,
        {
        }
        vstd::arithmetic::div_mod::lemma_fundamental_div_mod(f * s, d);
        vstd::arithmetic::div_mod::lemma_div_pos_is_pos(f * s, d);
        let q = f * s / d;
        assert(q <= 0x10000) by (nonlinear_arith)
            requires
                0 < d,
                f * s <= d * 0x10000,
                f * s == d * q + (f * s) % d,
                0 <= (f * s) % d,
        {
        }
    } else {
        assert(0 <= -(f * s) <= d * 0x10000) by (nonlinear_arith)
            requires
                0 <= f <= d,
                -0x10000 <= s < 0,
        {
        }
        vstd::arithmetic::div_mod::lemma_fundamental_div_mod(-(f * s), d);
        vstd::arithmetic::div_mod::lemma_div_pos_is_pos(-(f * s), d);
        let q = -(f * s) / d;
        assert(q <= 0x10000) by (nonlinear_arith)
            requires
                0 < d,
                -(f * s) <= d * 0x10000,
                -(f * s) == d * q + (-(f * s)) % d,
                0 <= (-(f * s)) % d,
        {
        }
        assert(f * s < 0 ==> div_trunc(f * s, d) == -(-(f * s) / d));
    }
}

/// Dot products of scatter-sized vectors stay far inside `i128`.
proof fn lemma_scatter_dot_fits(d: Vec3, n: Vec3)
    by (nonlinear_arith)
    requires
        -0x20000 <= d.x <= 0x20000,
        -0x20000 <= d.y <= 0x20000,
        -0x20000 <= d.z <= 0x20000,
        -0x10000 <= n.x <= 0x10000,
        -0x10000 <= n.y <= 0x10000,
        -0x10000 <= n.z <= 0x10000,
    ensures
        -0x600000000int <= dot_spec(d, n) <= 0x600000000int,
        -0x200000000int <= d.x * n.x <= 0x200000000int,
        -0x200000000int <= d.y * n.y <= 0x200000000int,
        -0x200000000int <= d.z * n.z <= 0x200000000int,
{
}


/// The mirror reflection of a unit lattice direction about a unit lattice
/// normal, back on the tick grid: `uv - 2 * (dot(uv,n) / 0x10000^2) * n`,
/// each component floored toward zero and saturated to the unit scale.
pub open spec fn reflect_ticks_spec(uv: Vec3, n: Vec3) -> Vec3 {
    Vec3 {
        x: clamp_scene(
            div_trunc(uv.x * 0x100000000 - 2 * dot_spec(uv, n) * n.x, 0x100000000),
        ) as i64,
        y: clamp_scene(
            div_trunc(uv.y * 0x100000000 - 2 * dot_spec(uv, n) * n.y, 0x100000000),
        ) as i64,
        z: clamp_scene(
            div_trunc(uv.z * 0x100000000 - 2 * dot_spec(uv, n) * n.z, 0x100000000),
        ) as i64,
    }
}

/// Reflect a unit lattice direction about a unit lattice normal, exactly as
/// `reflect_ticks_spec` states; the result stays on the unit scale, ready
/// for the metal perturbation.
pub fn reflect_ticks(uv: &Vec3, n: &Vec3) -> (r: Vec3)
    requires
        -0x10000 <= uv.x <= 0x10000,
        -0x10000 <= uv.y <= 0x10000,
        -0x10000 <= uv.z <= 0x10000,
        -0x10000 <= n.x <= 0x10000,
        -0x10000 <= n.y <= 0x10000,
        -0x10000 <= n.z <= 0x10000,
    ensures
        r == reflect_ticks_spec(*uv, *n),
        -0x10000 <= r.x <= 0x10000,
        -0x10000 <= r.y <= 0x10000,
        -0x10000 <= r.z <= 0x10000,
{
    proof {
        lemma_scatter_dot_fits(*uv, *n);
    }
    let dd = crate::rat::mul_i64(uv.x, n.x) + crate::rat::mul_i64(uv.y, n.y)
        + crate::rat::mul_i64(uv.z, n.z);
    proof {
        lemma_product_bound(2 * dot_spec(*uv, *n), n.x as int, 0xc00000000, 0x10000);
        lemma_product_bound(2 * dot_spec(*uv, *n), n.y as int, 0xc00000000, 0x10000);
        lemma_product_bound(2 * dot_spec(*uv, *n), n.z as int, 0xc00000000, 0x10000);
    }
    let wx = (uv.x as i128) * 0x100000000 - (2 * dd) * (n.x as i128);
    let wy = (uv.y as i128) * 0x100000000 - (2 * dd) * (n.y as i128);
    let wz = (uv.z as i128) * 0x100000000 - (2 * dd) * (n.z as i128);
    Vec3 {
        x: clamp_div_scene(wx, 0x100000000),
        y: clamp_div_scene(wy, 0x100000000),
        z: clamp_div_scene(wz, 0x100000000),
    }
}

/// The effective refraction ratio, as a value: the reciprocal of the index
/// on a front-face entry, the index itself on a back-face exit.
pub open spec fn dielectric_ratio(d: Dielectric, face: Face) -> Rat {
    if face == Face::Front {
        Rat { num: d.refraction_index.den, den: d.refraction_index.num }
    } else {
        d.refraction_index
    }
}

/// The clamped incidence cosine as a rational over `s * s`.
pub open spec fn dielectric_cos(uv: Vec3, n: Vec3, s: int) -> Rat {
    Rat { num: cos_ticks(uv, n, s) as i64, den: (s * s) as i64 }
}

/// Whether the dielectric reflects: total internal reflection makes
/// refraction impossible, and otherwise the Schlick reflectance may still
/// exceed the uniform draw.
pub open spec fn dielectric_reflects(
    d: Dielectric,
    face: Face,
    uv: Vec3,
    n: Vec3,
    s: int,
    draw: Rat,
) -> bool {
    ||| tir_spec(dielectric_cos(uv, n, s), dielectric_ratio(d, face))
    ||| schlick_reflects_spec(dielectric_cos(uv, n, s), dielectric_ratio(d, face), draw)
}

/// Reflection of `uv` about a normal of length `s` ticks, as an exact
/// rational: `uv - 2 * (dot(uv,n)/s^2) * n` over the denominator `s^2`.
pub open spec fn reflect_scaled_spec(uv: Vec3, n: Vec3, s: int) -> RatVec3 {
    RatVec3 {
        num: Vec3 {
            x: (uv.x * (s * s) - 2 * dot_spec(uv, n) * n.x) as i64,
            y: (uv.y * (s * s) - 2 * dot_spec(uv, n) * n.y) as i64,
            z: (uv.z * (s * s) - 2 * dot_spec(uv, n) * n.z) as i64,
        },
        den: (s * s) as i64,
    }
}

/// Inputs the dielectric scatter accepts: the refraction inputs at scale `s`
/// with a physical index (between one quarter and four in either
/// orientation), an incoming direction that does not leave the surface
/// (the stored normal opposes the ray), and a unit draw.
pub open spec fn dielectric_pre(d: Dielectric, uv: Vec3, n: Vec3, s: int, draw: Rat) -> bool {
    &&& 0 < s <= 0x100
    &&& -s <= uv.x <= s && -s <= uv.y <= s && -s <= uv.z <= s
    &&& -s <= n.x <= s && -s <= n.y <= s && -s <= n.z <= s
    &&& 0 < d.refraction_index.num <= 0x100
    &&& 0 < d.refraction_index.den <= 0x100
    &&& d.refraction_index.num <= 4 * d.refraction_index.den
    &&& d.refraction_index.den <= 4 * d.refraction_index.num
    &&& dot_spec(uv, n) <= s * s
    &&& 0 < draw.den <= 0x10000
    &&& 0 <= draw.num <= draw.den
}

/// Refractive scattering, decided and computed exactly: the attenuation is
/// always white (glass absorbs nothing); the direction is the reflection
/// when refraction is impossible or the Schlick reflectance beats the draw,
/// and the exact Snell refraction otherwise.
pub fn dielectric_scatter(
    d: &Dielectric,
    face: Face,
    unit_direction: &Vec3,
    unit_normal: &Vec3,
    s: i64,
    draw: &Rat,
) -> (r: (RatVec3, RatVec3))
    requires
        dielectric_pre(*d, *unit_direction, *unit_normal, s as int, *draw),
    ensures
        r.0 == (RatVec3 { num: (Vec3 { x: 1, y: 1, z: 1 }), den: 1 }),
        dielectric_reflects(*d, face, *unit_direction, *unit_normal, s as int, *draw) ==> r.1
            == reflect_scaled_spec(*unit_direction, *unit_normal, s as int),
        !dielectric_reflects(*d, face, *unit_direction, *unit_normal, s as int, *draw) ==> r.1
            == refract_spec(*unit_direction, *unit_normal, dielectric_ratio(*d, face), s as int),
        r.1.wf(),
{
    let white = RatVec3 { num: Vec3 { x: 1, y: 1, z: 1 }, den: 1 };
    let ratio = d.refraction_ratio(face);
    proof {
        assert(ratio == dielectric_ratio(*d, face));
        lemma_scaled_cos_fits(*unit_direction, *unit_normal, s as int);
    }
    let dd = Vec3::dot(unit_direction, unit_normal);
    let ss: i64 = s * s;
    let c: i64 = if -dd > ss {
        ss
    } else {
        -dd
    };
    let cos = Rat::new(c, ss);
    assert(cos == dielectric_cos(*unit_direction, *unit_normal, s as int));
    let reflects = if total_internal_reflection(&cos, &ratio) {
        true
    } else {
        schlick_reflects(&cos, &ratio, draw)
    };
    if reflects {
        let rx = (unit_direction.x as i128) * (ss as i128) - (2 * (dd as i128)) * (
        unit_normal.x as i128);
        let ry = (unit_direction.y as i128) * (ss as i128) - (2 * (dd as i128)) * (
        unit_normal.y as i128);
        let rz = (unit_direction.z as i128) * (ss as i128) - (2 * (dd as i128)) * (
        unit_normal.z as i128);
        (white, RatVec3 { num: Vec3 { x: rx as i64, y: ry as i64, z: rz as i64 }, den: ss })
    } else {
        (white, refract(unit_direction, unit_normal, &ratio, s))
    }
}

/// The cosine and reflection intermediates of a scaled dielectric scatter
/// stay far inside their types.
proof fn lemma_scaled_cos_fits(uv: Vec3, n: Vec3, s: int)
    requires
        0 < s <= 0x100,
        -s <= uv.x <= s && -s <= uv.y <= s && -s <= uv.z <= s,
        -s <= n.x <= s && -s <= n.y <= s && -s <= n.z <= s,
    ensures
        0 < s * s <= 0x10000int,
        -3 * (s * s) <= dot_spec(uv, n) <= 3 * (s * s),
        -0x30000int <= dot_spec(uv, n) <= 0x30000int,
        -0x1000000int <= uv.x * (s * s) <= 0x1000000int,
        -0x1000000int <= uv.y * (s * s) <= 0x1000000int,
        -0x1000000int <= uv.z * (s * s) <= 0x1000000int,
        -0x10000000int <= 2 * dot_spec(uv, n) * n.x <= 0x10000000int,
        -0x10000000int <= 2 * dot_spec(uv, n) * n.y <= 0x10000000int,
        -0x10000000int <= 2 * dot_spec(uv, n) * n.z <= 0x10000000int,
{
    assert(0 < s * s <= 0x10000int && -3 * (s * s) <= dot_spec(uv, n) <= 3 * (s * s) && -0x30000int
        <= dot_spec(uv, n) <= 0x30000int) by (nonlinear_arith)
        requires
            0 < s <= 0x100,
            -s <= uv.x <= s && -s <= uv.y <= s && -s <= uv.z <= s,
            -s <= n.x <= s && -s <= n.y <= s && -s <= n.z <= s,
    {
    }
    lemma_product_bound(uv.x as int, s * s, 0x100, 0x10000);
    lemma_product_bound(uv.y as int, s * s, 0x100, 0x10000);
    lemma_product_bound(uv.z as int, s * s, 0x100, 0x10000);
    lemma_product_bound(2 * dot_spec(uv, n), n.x as int, 0x60000, 0x100);
    lemma_product_bound(2 * dot_spec(uv, n), n.y as int, 0x60000, 0x100);
    lemma_product_bound(2 * dot_spec(uv, n), n.z as int, 0x60000, 0x100);
}

} // verus!
