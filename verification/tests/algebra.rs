use raytrace::rat::Rat;
use raytrace::refract::refract;
use raytrace::vec3::{RatVec3, Vec3};

#[test]
fn test_dot_01() {
    let u = Vec3::new(1, 2, -3);
    let v = Vec3::new(-1, 9, -4);
    let expected = 29;

    assert_eq!(Vec3::dot(&u, &v), expected);
}

#[test]
fn test_dot_02() {
    let u = Vec3::new(1, 2, 3);
    let v = Vec3::new(4, 5, 6);
    let expected = 32;

    assert_eq!(Vec3::dot(&u, &v), expected);
}

#[test]
fn test_dot_03() {
    let u = Vec3::new(7, 8, 9);
    let v = Vec3::new(10, 11, 12);
    let expected = 266;

    assert_eq!(Vec3::dot(&u, &v), expected);
}

#[test]
fn test_dot_04() {
    let u = Vec3::new(2, -3, 4);
    let v = Vec3::new(-1, 5, -6);
    let expected = -41;

    assert_eq!(Vec3::dot(&u, &v), expected);
}

#[test]
fn test_dot_05() {
    let u = Vec3::new(0, 0, 0);
    let v = Vec3::new(1, 2, 3);
    let expected = 0;

    assert_eq!(Vec3::dot(&u, &v), expected);
}

#[test]
fn test_dot_06() {
    let u = Vec3::new(1, -1, 1);
    let v = Vec3::new(-1, 1, -1);
    let expected = -3;

    assert_eq!(Vec3::dot(&u, &v), expected);
}

#[test]
fn test_dot_07() {
    let u = Vec3::new(-2, -4, -6);
    let v = Vec3::new(3, 6, 9);
    let expected = -84;

    assert_eq!(Vec3::dot(&u, &v), expected);
}

#[test]
fn test_dot_08() {
    let u = Vec3::new(1, 0, -1);
    let v = Vec3::new(0, 1, 0);
    let expected = 0;

    assert_eq!(Vec3::dot(&u, &v), expected);
}

#[test]
fn test_dot_09() {
    let u = Vec3::new(5, 5, 5);
    let v = Vec3::new(1, 2, 3);
    let expected = 30;

    assert_eq!(Vec3::dot(&u, &v), expected);
}

#[test]
fn test_dot_10() {
    let u = Vec3::new(-3, -2, -1);
    let v = Vec3::new(1, 0, -1);
    let expected = -2;

    assert_eq!(Vec3::dot(&u, &v), expected);
}

#[test]
fn test_reflect() {
    let data: [(Vec3, Vec3, Vec3); 10] = [
        (Vec3::new(1, 2, 3), Vec3::new(1, 0, 0), Vec3::new(-1, 2, 3)),
        (Vec3::new(-4, 5, -6), Vec3::new(0, 1, 0), Vec3::new(-4, -5, -6)),
        (Vec3::new(7, -8, 9), Vec3::new(0, 0, 1), Vec3::new(7, -8, -9)),
        (Vec3::new(-1, 2, -3), Vec3::new(1, 1, 1), Vec3::new(3, 6, 1)),
        (Vec3::new(4, -5, 6), Vec3::new(1, -1, 0), Vec3::new(-14, 13, 6)),
        (Vec3::new(0, 3, -7), Vec3::new(1, 1, 1), Vec3::new(8, 11, 1)),
        (Vec3::new(2, -2, 2), Vec3::new(1, 0, 1), Vec3::new(-6, -2, -6)),
        (Vec3::new(3, 0, -3), Vec3::new(0, 1, 1), Vec3::new(3, 6, 3)),
        (Vec3::new(-6, 7, 8), Vec3::new(1, 1, 0), Vec3::new(-8, 5, 8)),
        (Vec3::new(1, 1, 1), Vec3::new(1, 1, 1), Vec3::new(-5, -5, -5)),
    ];

    for (uv, n, expected) in data {
        let actual = Vec3::reflect(&uv, &n);
        assert_eq!(actual, expected);
    }
}

#[test]
fn test_refract_01() {
    let uv = Vec3::new(1, 1, 0);
    let n = Vec3::new(-1, 0, 0);
    let etai_over_etat = Rat::new(1, 1);
    let expected = RatVec3 { num: Vec3::new(0, 1, 0), den: 1 };
    let actual = refract(&uv, &n, &etai_over_etat, 1);
    assert!(actual.eq_val(&expected));
}

#[test]
fn test_refract_02() {
    // The original's scenario reaches outside the exact grid's unit cube, so
    // the nearest representable form is used: the same physical direction
    // (-1,-1,-1) against the unit normal (1,0,0) with ratio 9/10, at scale 2,
    // with the exact-model expected value.
    let uv = Vec3::new(-2, -2, -2);
    let n = Vec3::new(2, 0, 0);
    let etai_over_etat = Rat::new(9, 10);
    let expected = RatVec3 { num: Vec3::new(-258015, -294912, -294912), den: 327680 };
    let actual = refract(&uv, &n, &etai_over_etat, 2);
    assert!(actual.eq_val(&expected));
}

#[test]
fn test_refract_03() {
    // A refraction with a non-axis incidence, exactly representable: the
    // unit direction (0.6, 0, -0.8) at scale 5 against the unit normal
    // (0,0,1) with ratio 3/2; the parallel part is sqrt(0.19) to 1/65536
    // precision, 28566/65536.
    let uv = Vec3::new(3, 0, -4);
    let n = Vec3::new(0, 0, 5);
    let etai_over_etat = Rat::new(3, 2);
    let expected = RatVec3 { num: Vec3::new(73728000, 0, -35707500), den: 81920000 };
    let actual = refract(&uv, &n, &etai_over_etat, 5);
    assert!(actual.eq_val(&expected));
    // Energy conservation: the refracted direction continues into the
    // surface.
    assert!(actual.num.z < 0 && actual.den > 0);
}

#[test]
fn dot_is_symmetric() {
    let u = Vec3::new(3, -7, 11);
    let v = Vec3::new(-2, 5, 13);
    assert_eq!(Vec3::dot(&u, &v), Vec3::dot(&v, &u));
}

#[test]
fn cross_is_antisymmetric() {
    let u = Vec3::new(3, -7, 11);
    let v = Vec3::new(-2, 5, 13);
    let uv = Vec3::cross(&u, &v);
    let vu = Vec3::cross(&v, &u);
    assert_eq!(uv, vu.neg());
}

#[test]
fn cross_with_self_is_zero() {
    let u = Vec3::new(3, -7, 11);
    assert_eq!(Vec3::cross(&u, &u), Vec3::new(0, 0, 0));
}

#[test]
fn reflect_flips_normal_component() {
    let v = Vec3::new(3, 4, 5);
    let n = Vec3::new(0, 1, 0);
    assert_eq!(Vec3::dot(&n, &n), 1);
    let r = Vec3::reflect(&v, &n);
    assert_eq!(Vec3::dot(&r, &n), -Vec3::dot(&v, &n));
}

#[test]
fn refract_conserves_energy_toward_surface() {
    // Unit normal along -x, incoming direction with a grazing component.
    let uv = Vec3::new(1, 1, 0);
    let n = Vec3::new(-1, 0, 0);
    let eta = Rat::new(2, 3);
    let r = refract(&uv, &n, &eta, 1);
    // The component along -n is non-negative: dot(result, n) <= 0.
    let along = (r.num.x as i128) * (n.x as i128) + (r.num.y as i128) * (n.y as i128)
        + (r.num.z as i128) * (n.z as i128);
    assert!(along <= 0);
    assert!(r.den > 0);
}

#[test]
fn near_zero_only_for_zero_vector() {
    assert!(Vec3::new(0, 0, 0).near_zero());
    assert!(!Vec3::new(0, 1, 0).near_zero());
}
