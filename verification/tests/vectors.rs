use raytrace::vec3::Vec3;

#[test]
fn test_dot_product() {
    let data: [(Vec3, Vec3, i64); 20] = [
        (Vec3::new(1, 2, 3), Vec3::new(4, 5, 6), 32),
        (Vec3::new(-1, -2, -3), Vec3::new(4, 5, 6), -32),
        (Vec3::new(0, 0, 0), Vec3::new(1, 2, 3), 0),
        (Vec3::new(1, 0, 0), Vec3::new(0, 1, 0), 0),
        (Vec3::new(1, 1, 1), Vec3::new(1, 1, 1), 3),
        (Vec3::new(2, 3, 4), Vec3::new(5, 6, 7), 56),
        (Vec3::new(-2, -3, -4), Vec3::new(5, 6, 7), -56),
        (Vec3::new(1, 2, 3), Vec3::new(-1, -2, -3), -14),
        (Vec3::new(3, 2, 1), Vec3::new(1, 2, 3), 10),
        (Vec3::new(1, 2, 3), Vec3::new(3, 2, 1), 10),
        (Vec3::new(2, 2, 2), Vec3::new(2, 2, 2), 12),
        (Vec3::new(1, 0, -1), Vec3::new(-1, 0, 1), -2),
        (Vec3::new(0, 1, 0), Vec3::new(0, 0, 1), 0),
        (Vec3::new(1, 2, 3), Vec3::new(1, 0, 0), 1),
        (Vec3::new(1, 2, 3), Vec3::new(0, 1, 0), 2),
        (Vec3::new(1, 2, 3), Vec3::new(0, 0, 1), 3),
        (Vec3::new(1, 1, 1), Vec3::new(2, 2, 2), 6),
        (Vec3::new(1, 2, 3), Vec3::new(3, 2, 1), 10),
        (Vec3::new(2, 3, 4), Vec3::new(4, 3, 2), 25),
        (Vec3::new(1, 2, 3), Vec3::new(4, 5, 6), 32),
    ];

    for (u, v, e) in data {
        let r = Vec3::dot(&u, &v);

        assert_eq!(e, r);
    }
}

#[test]
fn test_cross_product() {
    let data: [(Vec3, Vec3, Vec3); 20] = [
        (Vec3::new(1, 2, 3), Vec3::new(4, 5, 6), Vec3::new(-3, 6, -3)),
        (Vec3::new(-1, -2, -3), Vec3::new(4, 5, 6), Vec3::new(3, -6, 3)),
        (Vec3::new(0, 0, 0), Vec3::new(1, 2, 3), Vec3::new(0, 0, 0)),
        (Vec3::new(1, 0, 0), Vec3::new(0, 1, 0), Vec3::new(0, 0, 1)),
        (Vec3::new(1, 1, 1), Vec3::new(1, 1, 1), Vec3::new(0, 0, 0)),
        (Vec3::new(2, 3, 4), Vec3::new(5, 6, 7), Vec3::new(-3, 6, -3)),
        (Vec3::new(-2, -3, -4), Vec3::new(5, 6, 7), Vec3::new(3, -6, 3)),
        (Vec3::new(1, 2, 3), Vec3::new(-1, -2, -3), Vec3::new(0, 0, 0)),
        (Vec3::new(3, 2, 1), Vec3::new(1, 2, 3), Vec3::new(4, -8, 4)),
        (Vec3::new(1, 2, 3), Vec3::new(3, 2, 1), Vec3::new(-4, 8, -4)),
        (Vec3::new(2, 2, 2), Vec3::new(2, 2, 2), Vec3::new(0, 0, 0)),
        (Vec3::new(1, 0, -1), Vec3::new(-1, 0, 1), Vec3::new(0, 0, 0)),
        (Vec3::new(0, 1, 0), Vec3::new(0, 0, 1), Vec3::new(1, 0, 0)),
        (Vec3::new(1, 2, 3), Vec3::new(1, 0, 0), Vec3::new(0, 3, -2)),
        (Vec3::new(1, 2, 3), Vec3::new(0, 1, 0), Vec3::new(-3, 0, 1)),
        (Vec3::new(1, 2, 3), Vec3::new(0, 0, 1), Vec3::new(2, -1, 0)),
        (Vec3::new(1, 1, 1), Vec3::new(2, 2, 2), Vec3::new(0, 0, 0)),
        (Vec3::new(1, 2, 3), Vec3::new(3, 2, 1), Vec3::new(-4, 8, -4)),
        (Vec3::new(2, 3, 4), Vec3::new(4, 3, 2), Vec3::new(-6, 12, -6)),
        (Vec3::new(1, 2, 3), Vec3::new(4, 5, 6), Vec3::new(-3, 6, -3)),
    ];

    for (u, v, e) in data {
        println!("[Cross product] Trying: {:?} {:?}", u, v);
        let r = Vec3::cross(&u, &v);

        assert_eq!(e, r);
    }
}
