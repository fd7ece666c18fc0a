use raytrace::camera::image_height;
use raytrace::color::write_color;
use raytrace::hittable::Face;
use raytrace::material::{Dielectric, Metal, schlick_reflects, total_internal_reflection};
use raytrace::ppm::ppm_encode;
use raytrace::rat::Rat;
use raytrace::rng::Rng;
use raytrace::sample::{UNIT, random_on_hemisphere, sample_square_offset, sample_unit_ball,
    sample_unit_disk};
use raytrace::vec3::{RatVec3, Vec3};

#[test]
fn gamma_mapping_formula_triple() {
    // Radiance (1, 0, 1/4) maps to (255, 0, floor(256 * sqrt(1/4))) = (255, 0, 128).
    let rgb = write_color(&Rat::new(1, 1), &Rat::new(0, 1), &Rat::new(1, 4));
    assert_eq!(rgb, (255, 0, 128));
}

#[test]
fn gamma_mapping_endpoints() {
    let (r, g, b) = write_color(&Rat::new(-1, 2), &Rat::new(999, 1000), &Rat::new(2, 1));
    // Negative radiance is black; values at or above the clamp are full.
    assert_eq!(r, 0);
    assert_eq!(g, 255);
    assert_eq!(b, 255);
}

#[test]
fn gamma_mapping_mid_values() {
    // floor(256 * sqrt(9/16)) = 192; floor(256 * sqrt(1/2)) = 181.
    let (r, g, _) = write_color(&Rat::new(9, 16), &Rat::new(1, 2), &Rat::new(0, 1));
    assert_eq!(r, 192);
    assert_eq!(g, 181);
}

#[test]
fn image_height_follows_aspect_ratio() {
    // A 400-wide image at 16:9 is 225 tall.
    assert_eq!(image_height(400, 16, 9), 225);
    // Portrait ratios are allowed.
    assert_eq!(image_height(100, 1, 3), 300);
    // The height never falls below one row.
    assert_eq!(image_height(1, 100, 1), 1);
}

#[test]
fn ppm_stream_is_exact() {
    let pixels = vec![(255u8, 0u8, 128u8)];
    let out = ppm_encode(1, 1, &pixels);
    assert_eq!(String::from_utf8(out).unwrap(), "P3\n1 1\n255\n255 0 128\n");
}

#[test]
fn ppm_stream_row_major() {
    let pixels = vec![(0u8, 0u8, 0u8), (1u8, 2u8, 3u8), (10u8, 20u8, 30u8), (
        200u8,
        100u8,
        50u8,
    )];
    let out = ppm_encode(2, 2, &pixels);
    assert_eq!(
        String::from_utf8(out).unwrap(),
        "P3\n2 2\n255\n0 0 0\n1 2 3\n10 20 30\n200 100 50\n"
    );
}

#[test]
fn rng_streams_repeat_with_the_seed() {
    // Re-running the same seed yields the identical stream.
    let mut a = Rng::new(42);
    let mut b = Rng::new(42);
    for _ in 0..100 {
        assert_eq!(a.next_u64(), b.next_u64());
    }
    let mut c = Rng::new(43);
    let mut d = Rng::new(42);
    let mut differs = false;
    for _ in 0..100 {
        if c.next_u64() != d.next_u64() {
            differs = true;
        }
    }
    assert!(differs);
}

#[test]
fn rng_zero_seed_is_replaced() {
    let mut z = Rng::new(0);
    // A stuck all-zero state would return zero forever.
    let first = z.next_u64();
    let second = z.next_u64();
    assert!(first != 0 || second != 0);
}

#[test]
fn rng_next_below_bound() {
    let mut rng = Rng::new(7);
    for _ in 0..100 {
        assert!(rng.next_below(10) < 10);
    }
}

#[test]
fn sampling_stays_inside_the_ball() {
    let mut rng = Rng::new(99);
    for _ in 0..50 {
        let p = sample_unit_ball(&mut rng);
        let len_sq = p.x * p.x + p.y * p.y + p.z * p.z;
        assert!(len_sq <= UNIT * UNIT);
        assert!(p != Vec3::new(0, 0, 0));
    }
}

#[test]
fn sampling_stays_inside_the_disk() {
    let mut rng = Rng::new(5);
    for _ in 0..50 {
        let p = sample_unit_disk(&mut rng);
        assert_eq!(p.z, 0);
        assert!(p.x * p.x + p.y * p.y <= UNIT * UNIT);
    }
}

#[test]
fn square_offsets_jitter_within_half_pixel() {
    let mut rng = Rng::new(11);
    for _ in 0..50 {
        let o = sample_square_offset(&mut rng);
        assert_eq!(o.den, UNIT);
        assert!(-UNIT <= 2 * o.num && 2 * o.num < UNIT);
    }
}

#[test]
fn hemisphere_samples_face_the_normal() {
    let mut rng = Rng::new(17);
    let normal = Vec3::new(0, UNIT, 0);
    for _ in 0..50 {
        let v = random_on_hemisphere(&mut rng, &normal);
        assert!(Vec3::dot(&v, &normal) >= 0);
        assert!(v != Vec3::new(0, 0, 0));
    }
}

#[test]
fn rendering_pipeline_repeats_with_the_seed() {
    // The exact pipeline from one seed, run twice: identical bytes out.
    let run = || {
        let mut rng = Rng::new(2024);
        let mut pixels: Vec<(u8, u8, u8)> = Vec::new();
        for _ in 0..4 {
            let p = sample_unit_ball(&mut rng);
            let r = Rat::new(p.x.abs(), UNIT);
            let g = Rat::new(p.y.abs(), UNIT);
            let b = Rat::new(p.z.abs(), UNIT);
            pixels.push(write_color(&r, &g, &b));
        }
        ppm_encode(2, 2, &pixels)
    };
    assert_eq!(run(), run());
}

#[test]
fn metal_fuzz_is_clamped() {
    let albedo = RatVec3 { num: Vec3::new(1, 1, 1), den: 2 };
    let m = Metal::new(albedo, Rat::new(3, 2));
    assert!(m.fuzz.eq_val(&Rat::new(1, 1)));
    let m2 = Metal::new(albedo, Rat::new(1, 4));
    assert!(m2.fuzz.eq_val(&Rat::new(1, 4)));
}

#[test]
fn dielectric_ratio_by_face() {
    let d = Dielectric::new(Rat::new(3, 2));
    assert!(d.refraction_ratio(Face::Front).eq_val(&Rat::new(2, 3)));
    assert!(d.refraction_ratio(Face::Back).eq_val(&Rat::new(3, 2)));
}

#[test]
fn total_internal_reflection_at_grazing() {
    // Exiting glass (ratio 3/2) at a grazing angle: no refraction solution.
    assert!(total_internal_reflection(&Rat::new(0, 1), &Rat::new(3, 2)));
    // Head-on, refraction goes through.
    assert!(!total_internal_reflection(&Rat::new(1, 1), &Rat::new(3, 2)));
}

#[test]
fn schlick_branch_decides_by_draw() {
    // Head-on against ratio 1/2: the reflectance is exactly r0 = 1/9.
    let cos = Rat::new(1, 1);
    let ratio = Rat::new(1, 2);
    assert!(schlick_reflects(&cos, &ratio, &Rat::new(0, 1)));
    assert!(!schlick_reflects(&cos, &ratio, &Rat::new(1, 2)));
    assert!(!schlick_reflects(&cos, &ratio, &Rat::new(1, 9)));
    assert!(schlick_reflects(&cos, &ratio, &Rat::new(1, 10)));
}
