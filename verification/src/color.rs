//! Gamma-correct mapping from accumulated radiance to 8-bit channels.
//!
//! Per channel: gamma correction by square root (radiance at or below zero
//! maps to zero), saturation, scaling by 256 and flooring.  On exact
//! rationals `floor(256 * sqrt(x))` is `sqrt_floor(floor(65536 * x))`, and
//! saturating the gamma value at the top of the displayable range is capping
//! the floored result at 255; the contract states the mapping in that exact
//! integer form.

use vstd::prelude::*;
use crate::integrator::color_wf;
use crate::rat::Rat;
use crate::sqrt::{isqrt, sqrt_floor};
use crate::vec3::{RatVec3, Vec3};

verus! {

/// One channel of a sample, floored onto the `1/2^16` grid.
pub open spec fn grid_channel(n: int, d: int) -> int {
    n * 0x10000 / d
}

/// The channelwise sum of the samples on the `1/2^16` grid.
pub open spec fn sum_grid(s: Seq<RatVec3>) -> (int, int, int)
    decreases s.len(),
{
    if s.len() == 0 {
        (0, 0, 0)
    } else {
        let t = sum_grid(s.drop_last());
        let l = s.last();
        (
            t.0 + grid_channel(l.num.x as int, l.den as int),
            t.1 + grid_channel(l.num.y as int, l.den as int),
            t.2 + grid_channel(l.num.z as int, l.den as int),
        )
    }
}

/// Average the accumulated per-sample radiance over `n` samples, the first
/// step of the color mapping: each channel is the floored mean of the
/// samples' values on the `1/2^16` grid.
pub fn average_radiance(samples: &Vec<RatVec3>, n: u32) -> (c: RatVec3)
    requires
        n > 0,
        n <= 0x10000,
        samples@.len() == n,
        forall|i: int| 0 <= i < samples@.len() ==> color_wf(#[trigger] samples@[i]),
    ensures
        c.den == 0x10000,
        c.num.x == sum_grid(samples@).0 / (n as int),
        c.num.y == sum_grid(samples@).1 / (n as int),
        c.num.z == sum_grid(samples@).2 / (n as int),
        color_wf(c),
{
    let mut sx: i64 = 0;
    let mut sy: i64 = 0;
    let mut sz: i64 = 0;
    let mut i: usize = 0;
    while i < samples.len()
        invariant
            0 <= i <= samples@.len(),
            samples@.len() <= 0x10000,
            forall|k: int| 0 <= k < samples@.len() ==> color_wf(#[trigger] samples@[k]),
            sx == sum_grid(samples@.take(i as int)).0,
            sy == sum_grid(samples@.take(i as int)).1,
            sz == sum_grid(samples@.take(i as int)).2,
            0 <= sx <= 0x10000 * i,
            0 <= sy <= 0x10000 * i,
            0 <= sz <= 0x10000 * i,
        decreases samples@.len() - i,
    {
        let s = &samples[i];
        proof {
            lemma_grid_channel(s.num.x as int, s.den as int);
            lemma_grid_channel(s.num.y as int, s.den as int);
            lemma_grid_channel(s.num.z as int, s.den as int);
        }
        let qx = crate::rat::mul_i64(s.num.x, 0x10000) / (s.den as i128);
        let qy = crate::rat::mul_i64(s.num.y, 0x10000) / (s.den as i128);
        let qz = crate::rat::mul_i64(s.num.z, 0x10000) / (s.den as i128);
        proof {
            assert(samples@.take(i + 1).drop_last() =~= samples@.take(i as int));
            assert(samples@.take(i + 1).last() == samples@[i as int]);
        }
        sx = sx + qx as i64;
        sy = sy + qy as i64;
        sz = sz + qz as i64;
        i += 1;
    }
    proof {
        assert(samples@.take(samples@.len() as int) =~= samples@);
        lemma_mean_bound(sx as int, n as int);
        lemma_mean_bound(sy as int, n as int);
        lemma_mean_bound(sz as int, n as int);
    }
    let cx = sx / (n as i64);
    let cy = sy / (n as i64);
    let cz = sz / (n as i64);
    RatVec3 { num: Vec3 { x: cx, y: cy, z: cz }, den: 0x10000 }
}

/// A `[0, 1]` channel lands in `[0, 2^16]` on the grid.
proof fn lemma_grid_channel(n: int, d: int)
    requires
        0 <= n <= d,
        0 < d <= 0x200000,
    ensures
        0 <= grid_channel(n, d) <= 0x10000,
        0 <= n * 0x10000 <= d * 0x10000,
{
    assert(0 <= n * 0x10000 <= d * 0x10000) by (nonlinear_arith)
        requires
            0 <= n <= d,
    {
    }
    vstd::arithmetic::div_mod::lemma_fundamental_div_mod(n * 0x10000, d);
    vstd::arithmetic::div_mod::lemma_div_pos_is_pos(n * 0x10000, d);
    let q = grid_channel(n, d);
    assert(q <= 0x10000) by (nonlinear_arith)
        requires
            0 < d,
            n * 0x10000 <= d * 0x10000,
            n * 0x10000 == d * q + (n * 0x10000) % d,
            0 <= (n * 0x10000) % d,
    {
    }
}

/// A sum of `n` values within a bound, divided by `n`, stays within it.
proof fn lemma_mean_bound(s: int, n: int)
    requires
        0 < n,
        0 <= s <= 0x10000 * n,
    ensures
        0 <= s / n <= 0x10000,
{
    vstd::arithmetic::div_mod::lemma_fundamental_div_mod(s, n);
    vstd::arithmetic::div_mod::lemma_div_pos_is_pos(s, n);
    let q = s / n;
    assert(q <= 0x10000) by (nonlinear_arith)
        requires
            0 < n,
            s <= 0x10000 * n,
            s == n * q + s % n,
            0 <= s % n,
    {
    }
}

/// The 8-bit channel value of radiance `x`: zero for non-positive radiance,
/// otherwise `floor(256 * sqrt(x))` capped at 255.
pub open spec fn gamma_byte(x: Rat) -> int {
    if x.num <= 0 {
        0
    } else {
        let q = sqrt_floor(0x10000int * x.num / (x.den as int));
        if q > 255 {
            255
        } else {
            q
        }
    }
}

/// Map one linear radiance channel to its displayable 8-bit value.
pub fn linear_to_gamma_byte(x: &Rat) -> (r: u8)
    requires
        x.wf(),
    ensures
        r == gamma_byte(*x),
{
    if x.num <= 0 {
        return 0;
    }
    let q: u128 = (0x10000u128 * (x.num as u128)) / (x.den as u128);
    assert(q == 0x10000int * x.num / (x.den as int));
    let s = isqrt(q);
    if s > 255 {
        255
    } else {
        s as u8
    }
}

/// Map a radiance triple to the row-major 8-bit RGB triple of one pixel.
pub fn write_color(r: &Rat, g: &Rat, b: &Rat) -> (res: (u8, u8, u8))
    requires
        r.wf(),
        g.wf(),
        b.wf(),
    ensures
        res.0 == gamma_byte(*r),
        res.1 == gamma_byte(*g),
        res.2 == gamma_byte(*b),
{
    (linear_to_gamma_byte(r), linear_to_gamma_byte(g), linear_to_gamma_byte(b))
}

} // verus!
