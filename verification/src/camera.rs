//! Integer camera geometry: the pixel grid and the rays cast through it.
//!
//! The image height follows from the width and the aspect ratio, floored and
//! kept at least 1.  The trigonometric viewport derivation is floating-point
//! work and happens once, outside; its result arrives as a `CameraGrid` of
//! exact fractions over one denominator, and from there every per-pixel ray
//! — jitter, depth-of-field origin, quantization to the scene grid — is an
//! exact function of the grid, the pixel indices and the generator state.

use vstd::prelude::*;
use crate::ray::{Ray, scene_bounded};
use crate::rng::{Rng, next_state_spec};
use vstd::arithmetic::mul::lemma_mul_by_zero_is_zero;
use crate::sample::{MAX_ATTEMPTS, disk_sample_spec, jitter_of, sample_square_offset,
    sample_unit_disk};
use crate::vec3::{Vec3, clamp_div_scene, clamp_scene, div_trunc};

verus! {

/// Numerators of a fractional vector over `den` stay within `den * b`, so
/// the vector's value stays within `b` ticks componentwise.
pub open spec fn num_bounded(v: Vec3, den: int, b: int) -> bool {
    &&& -(den * b) <= v.x <= den * b
    &&& -(den * b) <= v.y <= den * b
    &&& -(den * b) <= v.z <= den * b
}

/// The derived, cached ray-generation geometry of a camera: the camera
/// center in ticks, and — as exact fractions of ticks over the shared
/// denominator `den` — the location of pixel (0,0)'s center, the per-pixel
/// delta vectors, and the defocus-disk basis vectors.
pub struct CameraGrid {
    pub den: i64,
    pub center: Vec3,
    pub pixel00: Vec3,
    pub delta_u: Vec3,
    pub delta_v: Vec3,
    pub defocus_u: Vec3,
    pub defocus_v: Vec3,
    pub defocus_on: bool,
}

impl CameraGrid {
    /// Value bounds that keep every ray-generation intermediate inside its
    /// machine type: the viewport within half the scene grid, per-pixel
    /// steps within 256 ticks, the defocus disk within 8192 ticks.
    pub open spec fn wf(self) -> bool {
        &&& 0 < self.den <= 0x10000
        &&& scene_bounded(self.center)
        &&& num_bounded(self.pixel00, self.den as int, 0x8000)
        &&& num_bounded(self.delta_u, self.den as int, 0x100)
        &&& num_bounded(self.delta_v, self.den as int, 0x100)
        &&& num_bounded(self.defocus_u, self.den as int, 0x2000)
        &&& num_bounded(self.defocus_v, self.den as int, 0x2000)
    }
}

/// The ray cast for pixel `(i, j)` from generator state `s`, and the state
/// left behind: a jitter offset in each grid direction, the origin at the
/// camera center or on the defocus disk, and the direction from the origin
/// to the sampled point on the focus plane, quantized to the scene grid
/// (with a fixed fallback if quantization degenerates to the zero vector).
pub open spec fn get_ray_spec(g: CameraGrid, i: int, j: int, s: u64) -> (Ray, u64) {
    let u = 0x10000int;
    let ox = jitter_of(s);
    let s1 = next_state_spec(s);
    let oy = jitter_of(s1);
    let s2 = next_state_spec(s1);
    let (dp, s3) = if g.defocus_on {
        disk_sample_spec(s2, MAX_ATTEMPTS as nat)
    } else {
        (Vec3 { x: 0, y: 0, z: 0 }, s2)
    };
    let onx = g.center.x * (g.den * u) + dp.x * g.defocus_u.x + dp.y * g.defocus_v.x;
    let ony = g.center.y * (g.den * u) + dp.x * g.defocus_u.y + dp.y * g.defocus_v.y;
    let onz = g.center.z * (g.den * u) + dp.x * g.defocus_u.z + dp.y * g.defocus_v.z;
    let origin = Vec3 {
        x: clamp_scene(div_trunc(onx, g.den * u)) as i64,
        y: clamp_scene(div_trunc(ony, g.den * u)) as i64,
        z: clamp_scene(div_trunc(onz, g.den * u)) as i64,
    };
    let pnx = g.pixel00.x * u + (i * u + ox) * g.delta_u.x + (j * u + oy) * g.delta_v.x;
    let pny = g.pixel00.y * u + (i * u + ox) * g.delta_u.y + (j * u + oy) * g.delta_v.y;
    let pnz = g.pixel00.z * u + (i * u + ox) * g.delta_u.z + (j * u + oy) * g.delta_v.z;
    let dir0 = Vec3 {
        x: clamp_scene(div_trunc(pnx - origin.x * (g.den * u), g.den * u)) as i64,
        y: clamp_scene(div_trunc(pny - origin.y * (g.den * u), g.den * u)) as i64,
        z: clamp_scene(div_trunc(pnz - origin.z * (g.den * u), g.den * u)) as i64,
    };
    let dir = if dir0.x == 0 && dir0.y == 0 && dir0.z == 0 {
        Vec3 { x: 0, y: 0, z: (-0x10000) as i64 }
    } else {
        dir0
    };
    (Ray { origin, direction: dir }, s3)
}

/// Cast the ray for pixel `(i, j)`: exactly `get_ray_spec` of the grid, the
/// indices and the generator state.  The result is a well-formed scene ray,
/// and with depth-of-field off its origin is the camera center exactly.
/// (The index cap of 16384 pixels per axis is a model bound the grid's value
/// bounds are calibrated to; any image the scene grid can resolve fits it.)
pub fn get_ray(g: &CameraGrid, i: u32, j: u32, rng: &mut Rng) -> (r: Ray)
    requires
        g.wf(),
        i <= 0x4000,
        j <= 0x4000,
    ensures
        (r, final(rng).state) == get_ray_spec(*g, i as int, j as int, old(rng).state),
        r.wf(),
        !g.defocus_on ==> r.origin == g.center,
{
    let ox = sample_square_offset(rng).num;
    let oy = sample_square_offset(rng).num;
    let dp = if g.defocus_on {
        sample_unit_disk(rng)
    } else {
        Vec3::new(0, 0, 0)
    };
    proof {
        lemma_grid_products(*g, i as int, j as int, ox as int, oy as int, dp);
    }
    let du: i128 = (g.den as i128) * 0x10000;
    let onx = (g.center.x as i128) * du + crate::rat::mul_i64(dp.x, g.defocus_u.x)
        + crate::rat::mul_i64(dp.y, g.defocus_v.x);
    let ony = (g.center.y as i128) * du + crate::rat::mul_i64(dp.x, g.defocus_u.y)
        + crate::rat::mul_i64(dp.y, g.defocus_v.y);
    let onz = (g.center.z as i128) * du + crate::rat::mul_i64(dp.x, g.defocus_u.z)
        + crate::rat::mul_i64(dp.y, g.defocus_v.z);
    let origin = Vec3 {
        x: clamp_div_scene(onx, du),
        y: clamp_div_scene(ony, du),
        z: clamp_div_scene(onz, du),
    };
    proof {
        if !g.defocus_on {
            // The disk offset is zero, the division is exact, and the clamp
            // is the identity on the admitted centers: the origin is the
            // camera center.
            lemma_mul_by_zero_is_zero(g.defocus_u.x as int);
            lemma_mul_by_zero_is_zero(g.defocus_u.y as int);
            lemma_mul_by_zero_is_zero(g.defocus_u.z as int);
            lemma_mul_by_zero_is_zero(g.defocus_v.x as int);
            lemma_mul_by_zero_is_zero(g.defocus_v.y as int);
            lemma_mul_by_zero_is_zero(g.defocus_v.z as int);
            crate::vec3::lemma_div_trunc_exact(g.center.x as int, du as int);
            crate::vec3::lemma_div_trunc_exact(g.center.y as int, du as int);
            crate::vec3::lemma_div_trunc_exact(g.center.z as int, du as int);
        }
    }
    let fi: i128 = (i as i128) * 0x10000 + (ox as i128);
    let fj: i128 = (j as i128) * 0x10000 + (oy as i128);
    let pnx = (g.pixel00.x as i128) * 0x10000 + fi * (g.delta_u.x as i128) + fj * (
    g.delta_v.x as i128);
    let pny = (g.pixel00.y as i128) * 0x10000 + fi * (g.delta_u.y as i128) + fj * (
    g.delta_v.y as i128);
    let pnz = (g.pixel00.z as i128) * 0x10000 + fi * (g.delta_u.z as i128) + fj * (
    g.delta_v.z as i128);
    proof {
        lemma_grid_mul(origin.x as int, du as int, 0x10000, 0x100000000);
        lemma_grid_mul(origin.y as int, du as int, 0x10000, 0x100000000);
        lemma_grid_mul(origin.z as int, du as int, 0x10000, 0x100000000);
    }
    let dir0 = Vec3 {
        x: clamp_div_scene(pnx - (origin.x as i128) * du, du),
        y: clamp_div_scene(pny - (origin.y as i128) * du, du),
        z: clamp_div_scene(pnz - (origin.z as i128) * du, du),
    };
    let dir = if dir0.x == 0 && dir0.y == 0 && dir0.z == 0 {
        Vec3::new(0, 0, -0x10000)
    } else {
        dir0
    };
    Ray { origin, direction: dir }
}

/// Every ray-generation intermediate stays far inside `i128` for a
/// well-formed grid and bounded pixel indices.
proof fn lemma_grid_products(g: CameraGrid, i: int, j: int, ox: int, oy: int, dp: Vec3)
    requires
        g.wf(),
        0 <= i <= 0x4000,
        0 <= j <= 0x4000,
        -0x8000 <= ox <= 0x8000,
        -0x8000 <= oy <= 0x8000,
        -0x10000 <= dp.x <= 0x10000,
        -0x10000 <= dp.y <= 0x10000,
    ensures
        0 < g.den * 0x10000 <= 0x100000000int,
        -0x1000000000000int <= g.center.x * (g.den * 0x10000int) <= 0x1000000000000int,
        -0x1000000000000int <= g.center.y * (g.den * 0x10000int) <= 0x1000000000000int,
        -0x1000000000000int <= g.center.z * (g.den * 0x10000int) <= 0x1000000000000int,
        -0x4000000000000int <= dp.x * g.defocus_u.x <= 0x4000000000000int,
        -0x4000000000000int <= dp.x * g.defocus_u.y <= 0x4000000000000int,
        -0x4000000000000int <= dp.x * g.defocus_u.z <= 0x4000000000000int,
        -0x4000000000000int <= dp.y * g.defocus_v.x <= 0x4000000000000int,
        -0x4000000000000int <= dp.y * g.defocus_v.y <= 0x4000000000000int,
        -0x4000000000000int <= dp.y * g.defocus_v.z <= 0x4000000000000int,
        -0x800000000000int <= g.pixel00.x * 0x10000int <= 0x800000000000int,
        -0x800000000000int <= g.pixel00.y * 0x10000int <= 0x800000000000int,
        -0x800000000000int <= g.pixel00.z * 0x10000int <= 0x800000000000int,
        -0x200000000000000int <= (i * 0x10000int + ox) * g.delta_u.x <= 0x200000000000000int,
        -0x200000000000000int <= (i * 0x10000int + ox) * g.delta_u.y <= 0x200000000000000int,
        -0x200000000000000int <= (i * 0x10000int + ox) * g.delta_u.z <= 0x200000000000000int,
        -0x200000000000000int <= (j * 0x10000int + oy) * g.delta_v.x <= 0x200000000000000int,
        -0x200000000000000int <= (j * 0x10000int + oy) * g.delta_v.y <= 0x200000000000000int,
        -0x200000000000000int <= (j * 0x10000int + oy) * g.delta_v.z <= 0x200000000000000int,
{
    let u = 0x10000int;
    assert(0 < g.den * 0x10000int <= 0x100000000int) by (nonlinear_arith)
        requires
            0 < g.den <= 0x10000,
    {
    }
    lemma_grid_mul(g.center.x as int, g.den * u, 0x10000, 0x100000000);
    lemma_grid_mul(g.center.y as int, g.den * u, 0x10000, 0x100000000);
    lemma_grid_mul(g.center.z as int, g.den * u, 0x10000, 0x100000000);
    assert(g.den * 0x2000 <= 0x20000000int && g.den * 0x8000 <= 0x80000000int && g.den * 0x100
        <= 0x1000000int) by (nonlinear_arith)
        requires
            0 < g.den <= 0x10000,
    {
    }
    lemma_grid_mul(dp.x as int, g.defocus_u.x as int, 0x10000, 0x20000000);
    lemma_grid_mul(dp.x as int, g.defocus_u.y as int, 0x10000, 0x20000000);
    lemma_grid_mul(dp.x as int, g.defocus_u.z as int, 0x10000, 0x20000000);
    lemma_grid_mul(dp.y as int, g.defocus_v.x as int, 0x10000, 0x20000000);
    lemma_grid_mul(dp.y as int, g.defocus_v.y as int, 0x10000, 0x20000000);
    lemma_grid_mul(dp.y as int, g.defocus_v.z as int, 0x10000, 0x20000000);
    lemma_grid_mul(g.pixel00.x as int, u, 0x80000000, 0x10000);
    lemma_grid_mul(g.pixel00.y as int, u, 0x80000000, 0x10000);
    lemma_grid_mul(g.pixel00.z as int, u, 0x80000000, 0x10000);
    lemma_grid_mul(i * u + ox, g.delta_u.x as int, 0x40008000, 0x1000000);
    lemma_grid_mul(i * u + ox, g.delta_u.y as int, 0x40008000, 0x1000000);
    lemma_grid_mul(i * u + ox, g.delta_u.z as int, 0x40008000, 0x1000000);
    lemma_grid_mul(j * u + oy, g.delta_v.x as int, 0x40008000, 0x1000000);
    lemma_grid_mul(j * u + oy, g.delta_v.y as int, 0x40008000, 0x1000000);
    lemma_grid_mul(j * u + oy, g.delta_v.z as int, 0x40008000, 0x1000000);
}

/// A product's magnitude is bounded by the product of the factors' bounds.
proof fn lemma_grid_mul(a: int, b: int, ba: int, bb: int)
    by (nonlinear_arith)
    requires
        -ba <= a <= ba,
        -bb <= b <= bb,
        0 <= ba,
        0 <= bb,
    ensures
        -(ba * bb) <= a * b <= ba * bb,
{
}

/// Height of the pixel grid for a given width and aspect ratio
/// `aspect_num / aspect_den`: the floor of `width / ratio`, at least 1.
pub fn image_height(image_width: u32, aspect_num: u32, aspect_den: u32) -> (r: u32)
    requires
        image_width > 0,
        aspect_num > 0,
        aspect_den > 0,
        image_width * aspect_den / (aspect_num as int) <= u32::MAX,
    ensures
        r == if image_width * aspect_den / (aspect_num as int) < 1 {
            1int
        } else {
            image_width * aspect_den / (aspect_num as int)
        },
    {
    proof {
        assert(image_width * aspect_den <= 0xffffffff00000000int) by (nonlinear_arith)
            requires
                image_width <= 0xffffffffint,
                aspect_den <= 0xffffffffint,
        {
        }
    }
    let wide: u64 = (image_width as u64) * (aspect_den as u64) / (aspect_num as u64);
    if wide < 1 {
        1
    } else {
        wide as u32
    }
}

} // verus!
