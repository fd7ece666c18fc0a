//! The recursive radiance estimator's decisions, one bounce at a time.
//!
//! The estimator follows a ray until depth exhaustion, absorption or a miss;
//! along the way the path's color is the running product of the surface
//! attenuations (energy accounting along the path).  The stochastic work of
//! a bounce — intersecting the scene and scattering at the surface — is
//! performed by the caller, who hands the outcome back as a `ScatterEvent`;
//! every decision and every color computation is made here, exactly: depth
//! exhaustion and absorption end the path in black, a miss ends it in the
//! sky gradient scaled by the accumulated attenuation, and a scatter deepens
//! the product and continues with one less bounce.

use vstd::prelude::*;
use crate::rat::Rat;
use crate::vec3::{RatVec3, Vec3};

verus! {

/// A color on the fixed-point grid: channels in `[0, 1]` over a positive
/// denominator of at most `2^21`.
pub open spec fn color_wf(c: RatVec3) -> bool {
    &&& 0 < c.den <= 0x200000
    &&& 0 <= c.num.x <= c.den
    &&& 0 <= c.num.y <= c.den
    &&& 0 <= c.num.z <= c.den
}

/// No radiance.
pub open spec fn black() -> RatVec3 {
    RatVec3 { num: Vec3 { x: 0, y: 0, z: 0 }, den: 1 }
}

/// One channel of a color product, floored onto the `1/2^16` grid.
pub open spec fn scaled_channel(a: int, da: int, b: int, db: int) -> int {
    a * b * 0x10000 / (da * db)
}

/// The componentwise color product, floored onto the `1/2^16` grid so that
/// denominators stay bounded along a path of many bounces.
pub open spec fn attenuate_spec(a: RatVec3, b: RatVec3) -> RatVec3 {
    RatVec3 {
        num: Vec3 {
            x: scaled_channel(a.num.x as int, a.den as int, b.num.x as int, b.den as int) as i64,
            y: scaled_channel(a.num.y as int, a.den as int, b.num.y as int, b.den as int) as i64,
            z: scaled_channel(a.num.z as int, a.den as int, b.num.z as int, b.den as int) as i64,
        },
        den: 0x10000,
    }
}

/// The background gradient a missed ray sees: white at the horizon blending
/// to sky blue at the zenith.  With `a = (unit_y + 1) / 2`, the blend
/// `(1-a)*(1,1,1) + a*(0.5,0.7,1.0)` written exactly over the common
/// denominator `20 * unit_y.den`.
pub open spec fn sky_spec(unit_y: Rat) -> RatVec3 {
    RatVec3 {
        num: Vec3 {
            x: (15 * unit_y.den - 5 * unit_y.num) as i64,
            y: (17 * unit_y.den - 3 * unit_y.num) as i64,
            z: (20 * unit_y.den) as i64,
        },
        den: (20 * unit_y.den) as i64,
    }
}

/// What the caller's outside work handed back for one bounce: the ray left
/// the scene (with the unit direction's vertical component), was absorbed,
/// or scattered with an attenuation and a new direction.
pub enum ScatterEvent {
    Miss { unit_y: Rat },
    Absorbed,
    Scattered { attenuation: RatVec3, dir: Vec3 },
}

/// What the estimator decided: the path's final color, or the state to
/// continue the loop with (the caller casts the scattered direction next).
pub enum StepOutcome {
    Done { color: RatVec3 },
    Continue { attenuation: RatVec3, depth: u32 },
}

/// Componentwise color product, floored onto the `1/2^16` grid.
pub fn attenuate(a: &RatVec3, b: &RatVec3) -> (r: RatVec3)
    requires
        color_wf(*a),
        color_wf(*b),
    ensures
        r == attenuate_spec(*a, *b),
        color_wf(r),
{
    proof {
        lemma_scaled_channel(a.num.x as int, a.den as int, b.num.x as int, b.den as int);
        lemma_scaled_channel(a.num.y as int, a.den as int, b.num.y as int, b.den as int);
        lemma_scaled_channel(a.num.z as int, a.den as int, b.num.z as int, b.den as int);
    }
    let dd = crate::rat::mul_i64(a.den, b.den);
    let nx = (crate::rat::mul_i64(a.num.x, b.num.x) * 0x10000) / dd;
    let ny = (crate::rat::mul_i64(a.num.y, b.num.y) * 0x10000) / dd;
    let nz = (crate::rat::mul_i64(a.num.z, b.num.z) * 0x10000) / dd;
    RatVec3 { num: Vec3 { x: nx as i64, y: ny as i64, z: nz as i64 }, den: 0x10000 }
}

/// A product of `[0, 1]` channels scaled by `2^16` and floored stays in
/// `[0, 2^16]`, and each step of its computation stays inside its type.
proof fn lemma_scaled_channel(a: int, da: int, b: int, db: int)
    requires
        0 <= a <= da,
        0 <= b <= db,
        0 < da <= 0x200000,
        0 < db <= 0x200000,
    ensures
        0 <= scaled_channel(a, da, b, db) <= 0x10000,
        0 < da * db <= 0x40000000000int,
        0 <= a * b <= da * db,
{
    assert(0 < da * db <= 0x40000000000int && 0 <= a * b <= da * db) by (nonlinear_arith)
        requires
            0 <= a <= da,
            0 <= b <= db,
            0 < da <= 0x200000,
            0 < db <= 0x200000,
    {
    }
    let q = scaled_channel(a, da, b, db);
    vstd::arithmetic::div_mod::lemma_fundamental_div_mod(a * b * 0x10000, da * db);
    vstd::arithmetic::div_mod::lemma_div_pos_is_pos(a * b * 0x10000, da * db);
    assert(0 <= a * b * 0x10000) by (nonlinear_arith)
        requires
            0 <= a * b,
    {
    }
    assert(q <= 0x10000) by (nonlinear_arith)
        requires
            0 < da * db,
            0 <= a * b <= da * db,
            a * b * 0x10000 == (da * db) * q + (a * b * 0x10000) % (da * db),
            0 <= (a * b * 0x10000) % (da * db),
    {
    }
}

/// The sky gradient a missed ray sees, exactly.
pub fn sky_color(unit_y: &Rat) -> (r: RatVec3)
    requires
        unit_y.wf(),
        unit_y.den <= 0x10000,
        -unit_y.den <= unit_y.num <= unit_y.den,
    ensures
        r == sky_spec(*unit_y),
        color_wf(r),
{
    RatVec3 {
        num: Vec3 {
            x: 15 * unit_y.den - 5 * unit_y.num,
            y: 17 * unit_y.den - 3 * unit_y.num,
            z: 20 * unit_y.den,
        },
        den: 20 * unit_y.den,
    }
}

/// One decision of the depth-bounded estimator.  Depth exhaustion is the
/// energy cutoff and absorption a valid physical outcome: both end the path
/// in black.  A miss ends it in the accumulated attenuation times the sky
/// gradient; a scatter multiplies the attenuation in and continues with one
/// less bounce.
pub fn radiance_step(attenuation: &RatVec3, depth: u32, ev: &ScatterEvent) -> (r: StepOutcome)
    requires
        color_wf(*attenuation),
        (*ev) matches ScatterEvent::Miss { unit_y } ==> unit_y.wf() && unit_y.den <= 0x10000
            && -unit_y.den <= unit_y.num <= unit_y.den,
        (*ev) matches ScatterEvent::Scattered { attenuation: a2, dir } ==> color_wf(a2),
    ensures
        depth == 0 ==> r == (StepOutcome::Done { color: black() }),
        depth > 0 && (*ev) is Absorbed ==> r == (StepOutcome::Done { color: black() }),
        depth > 0 ==> ((*ev) matches ScatterEvent::Miss { unit_y } ==> r == (StepOutcome::Done {
            color: attenuate_spec(*attenuation, sky_spec(unit_y)),
        })),
        depth > 0 ==> ((*ev) matches ScatterEvent::Scattered { attenuation: a2, dir } ==> r == (
        StepOutcome::Continue {
            attenuation: attenuate_spec(*attenuation, a2),
            depth: (depth - 1) as u32,
        })),
        (r matches StepOutcome::Continue { attenuation: a, depth: d } ==> color_wf(a) && d
            < depth),
        (r matches StepOutcome::Done { color } ==> color_wf(color)),
{
    if depth == 0 {
        return StepOutcome::Done { color: RatVec3 { num: Vec3 { x: 0, y: 0, z: 0 }, den: 1 } };
    }
    match ev {
        ScatterEvent::Absorbed => StepOutcome::Done {
            color: RatVec3 { num: Vec3 { x: 0, y: 0, z: 0 }, den: 1 },
        },
        ScatterEvent::Miss { unit_y } => {
            let s = sky_color(unit_y);
            StepOutcome::Done { color: attenuate(attenuation, &s) }
        },
        ScatterEvent::Scattered { attenuation: a2, dir: _ } => StepOutcome::Continue {
            attenuation: attenuate(attenuation, a2),
            depth: depth - 1,
        },
    }
}

} // verus!
