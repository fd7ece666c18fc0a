use raytrace::camera::{CameraGrid, get_ray};
use raytrace::color::average_radiance;
use raytrace::hittable::Face;
use raytrace::integrator::{ScatterEvent, StepOutcome, attenuate, radiance_step, sky_color};
use raytrace::interval::Interval;
use raytrace::material::{Dielectric, dielectric_scatter, lambertian_scatter, metal_scatter,
    reflect_ticks};
use raytrace::rat::Rat;
use raytrace::rng::Rng;
use raytrace::sample::UNIT;
use raytrace::vec3::{RatVec3, Vec3, normalize_ticks};

fn white() -> RatVec3 {
    RatVec3 { num: Vec3::new(1, 1, 1), den: 1 }
}

#[test]
fn attenuate_multiplies_channels_exactly() {
    let a = RatVec3 { num: Vec3::new(2, 1, 4), den: 4 };
    let b = RatVec3 { num: Vec3::new(1, 1, 1), den: 2 };
    let r = attenuate(&a, &b);
    // (1/2, 1/4, 1) times (1/2, 1/2, 1/2) is (1/4, 1/8, 1/2).
    assert!(r.eq_val(&RatVec3 { num: Vec3::new(2, 1, 4), den: 8 }));
    assert_eq!(r.den, 0x10000);
}

#[test]
fn sky_blend_endpoints() {
    // Straight up: the sky blue; straight down: white.
    let zenith = sky_color(&Rat::new(0x1000, 0x1000));
    assert!(Rat::new(zenith.num.x, zenith.den).eq_val(&Rat::new(1, 2)));
    assert!(Rat::new(zenith.num.y, zenith.den).eq_val(&Rat::new(7, 10)));
    assert!(Rat::new(zenith.num.z, zenith.den).eq_val(&Rat::new(1, 1)));
    let nadir = sky_color(&Rat::new(-0x1000, 0x1000));
    assert!(nadir.eq_val(&white()));
}

#[test]
fn radiance_step_depth_exhaustion_is_black() {
    let r = radiance_step(&white(), 0, &ScatterEvent::Absorbed);
    match r {
        StepOutcome::Done { color } => {
            assert!(color.eq_val(&RatVec3 { num: Vec3::new(0, 0, 0), den: 1 }));
        }
        StepOutcome::Continue { .. } => panic!("depth exhaustion must end the path"),
    }
}

#[test]
fn radiance_step_absorption_is_black() {
    let r = radiance_step(&white(), 5, &ScatterEvent::Absorbed);
    match r {
        StepOutcome::Done { color } => {
            assert!(color.eq_val(&RatVec3 { num: Vec3::new(0, 0, 0), den: 1 }));
        }
        StepOutcome::Continue { .. } => panic!("absorption must end the path"),
    }
}

#[test]
fn radiance_step_miss_scales_the_sky() {
    let ev = ScatterEvent::Miss { unit_y: Rat::new(0x1000, 0x1000) };
    match radiance_step(&white(), 3, &ev) {
        StepOutcome::Done { color } => {
            assert!(Rat::new(color.num.x, color.den).eq_val(&Rat::new(1, 2)));
            // 0.7 floored onto the 1/65536 grid: 45875/65536.
            assert_eq!(color.num.y, 45875);
            assert_eq!(color.den, 0x10000);
            assert!(Rat::new(color.num.z, color.den).eq_val(&Rat::new(1, 1)));
        }
        StepOutcome::Continue { .. } => panic!("a miss must end the path"),
    }
}

#[test]
fn radiance_step_scatter_deepens_the_product() {
    let half = RatVec3 { num: Vec3::new(1, 1, 1), den: 2 };
    let ev = ScatterEvent::Scattered { attenuation: half, dir: Vec3::new(0, 0, UNIT) };
    match radiance_step(&white(), 5, &ev) {
        StepOutcome::Continue { attenuation, depth } => {
            assert_eq!(depth, 4);
            assert!(attenuation.eq_val(&half));
        }
        StepOutcome::Done { .. } => panic!("a scatter must continue the path"),
    }
}

#[test]
fn average_radiance_is_the_floored_mean() {
    let samples = vec![
        RatVec3 { num: Vec3::new(1, 0, 1), den: 1 },
        RatVec3 { num: Vec3::new(0, 0, 1), den: 2 },
    ];
    let mean = average_radiance(&samples, 2);
    assert!(Rat::new(mean.num.x, mean.den).eq_val(&Rat::new(1, 2)));
    assert!(Rat::new(mean.num.y, mean.den).eq_val(&Rat::new(0, 1)));
    assert!(Rat::new(mean.num.z, mean.den).eq_val(&Rat::new(3, 4)));
}

#[test]
fn lambertian_scatter_perturbs_or_falls_back() {
    let al = RatVec3 { num: Vec3::new(1, 1, 1), den: 2 };
    let n = Vec3::new(0, 0, UNIT);
    let (a1, d1) = lambertian_scatter(&al, &n, &Vec3::new(UNIT, 0, 0));
    assert!(a1.eq_val(&al));
    assert_eq!(d1, Vec3::new(UNIT, 0, UNIT));
    // A sample that cancels the normal falls back to the normal.
    let (_, d2) = lambertian_scatter(&al, &n, &Vec3::new(0, 0, -UNIT));
    assert_eq!(d2, n);
}

#[test]
fn metal_scatter_accepts_or_rejects_by_face() {
    let al = RatVec3 { num: Vec3::new(1, 1, 1), den: 2 };
    let n = Vec3::new(0, 0, UNIT);
    // Fuzz zero: the direction is the reflection itself.
    let r = metal_scatter(&al, &Rat::new(0, 1), &Vec3::new(0, 0, UNIT), &Vec3::new(UNIT, 0, 0), &n);
    let (a1, d1) = r.expect("an outward reflection scatters");
    assert!(a1.eq_val(&al));
    assert_eq!(d1, Vec3::new(0, 0, UNIT));
    // A perturbed direction pointing into the surface is rejected.
    let r2 = metal_scatter(&al, &Rat::new(1, 1), &Vec3::new(0, 0, -UNIT), &Vec3::new(0, 0, 0), &n);
    assert!(r2.is_none());
}

#[test]
fn dielectric_scatter_reflects_or_refracts_by_draw() {
    let glass = Dielectric::new(Rat::new(3, 2));
    let uv = Vec3::new(0, 0, -1);
    let n = Vec3::new(0, 0, 1);
    // Head-on entry, draw below the Fresnel reflectance: reflect.
    let (att, dir) = dielectric_scatter(&glass, Face::Front, &uv, &n, 1, &Rat::new(0, 1));
    assert!(att.eq_val(&white()));
    assert!(dir.eq_val(&RatVec3 { num: Vec3::new(0, 0, 1), den: 1 }));
    // Head-on entry, draw above it: refract straight through.
    let (_, dir2) = dielectric_scatter(&glass, Face::Front, &uv, &n, 1, &Rat::new(1, 2));
    assert!(dir2.eq_val(&RatVec3 { num: Vec3::new(0, 0, -1), den: 1 }));
}

#[test]
fn normalize_ticks_scales_to_unit_length() {
    let v = Vec3::new(300, 0, 400);
    let u = normalize_ticks(&v);
    assert_eq!(u, Vec3::new(39321, 0, 52428));
}

#[test]
fn forward_window_guards_self_intersection() {
    let w = Interval::forward_window();
    assert!(!w.surrounds(&Rat::new(0, 1)));
    assert!(!w.surrounds(&Rat::new(1, 0x20000)));
    assert!(w.surrounds(&Rat::new(1, 2)));
    assert!(w.surrounds(&Rat::new(1_000_000, 1)));
}

#[test]
fn get_ray_repeats_with_the_seed() {
    let grid = CameraGrid {
        den: 1,
        center: Vec3::new(0, 0, 0),
        pixel00: Vec3::new(0, 0, -1000),
        delta_u: Vec3::new(1, 0, 0),
        delta_v: Vec3::new(0, -1, 0),
        defocus_u: Vec3::new(0, 0, 0),
        defocus_v: Vec3::new(0, 0, 0),
        defocus_on: false,
    };
    let mut r1 = Rng::new(7);
    let mut r2 = Rng::new(7);
    let a = get_ray(&grid, 0, 0, &mut r1);
    let b = get_ray(&grid, 0, 0, &mut r2);
    assert_eq!(a.origin, b.origin);
    assert_eq!(a.direction, b.direction);
    // With sub-tick deltas the jitter floors away: the ray points at the
    // pixel center exactly.
    assert_eq!(a.origin, Vec3::new(0, 0, 0));
    assert_eq!(a.direction, Vec3::new(0, 0, -1000));
}

#[test]
fn get_ray_origin_is_the_center_without_defocus() {
    let grid = CameraGrid {
        den: 1,
        center: Vec3::new(5, 6, 7),
        pixel00: Vec3::new(0, 0, -1000),
        delta_u: Vec3::new(1, 0, 0),
        delta_v: Vec3::new(0, -1, 0),
        defocus_u: Vec3::new(0, 0, 0),
        defocus_v: Vec3::new(0, 0, 0),
        defocus_on: false,
    };
    let mut rng = Rng::new(11);
    for i in 0..5 {
        let r = get_ray(&grid, i, i, &mut rng);
        assert_eq!(r.origin, Vec3::new(5, 6, 7));
    }
}

#[test]
fn reflect_ticks_mirrors_about_the_normal() {
    let n = Vec3::new(0, 0, UNIT);
    // Head-on: straight back.
    assert_eq!(reflect_ticks(&Vec3::new(0, 0, UNIT), &n), Vec3::new(0, 0, -UNIT));
    // Orthogonal to the normal: unchanged.
    assert_eq!(reflect_ticks(&Vec3::new(UNIT, 0, 0), &n), Vec3::new(UNIT, 0, 0));
    // Oblique: the normal component flips.
    let r = reflect_ticks(&Vec3::new(UNIT, 0, -UNIT), &n);
    assert_eq!(r, Vec3::new(UNIT, 0, UNIT));
}

#[test]
fn quantize_floors_toward_zero_on_the_scene_grid() {
    let p = RatVec3 { num: Vec3::new(10, -7, 3), den: 2 };
    assert_eq!(p.quantize(), Vec3::new(5, -3, 1));
    // Far points saturate at the scene bound.
    let far = RatVec3 { num: Vec3::new(i64::MAX, 0, i64::MIN + 1), den: 1 };
    assert_eq!(far.quantize(), Vec3::new(0x10000, 0, -0x10000));
}

#[test]
fn direction_ticks_scales_onto_the_unit_grid() {
    let d = RatVec3 { num: Vec3::new(1, 0, -1), den: 2 };
    assert_eq!(d.direction_ticks(), Vec3::new(32768, 0, -32768));
}

#[test]
fn normalize_ticks_accepts_large_vectors() {
    let big: i64 = 1 << 40;
    let v = Vec3::new(3 * big, 0, 4 * big);
    assert_eq!(normalize_ticks(&v), Vec3::new(39321, 0, 52428));
}
