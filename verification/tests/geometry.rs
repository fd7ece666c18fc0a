use raytrace::hittable::Face;
use raytrace::interval::Interval;
use raytrace::rat::Rat;
use raytrace::ray::Ray;
use raytrace::sphere::Sphere;
use raytrace::vec3::{RatVec3, Vec3};
use raytrace::world::World;

fn query_interval() -> Interval {
    // (0.001, a bound far beyond the scene), the integrator's query window.
    Interval::new(Rat::new(1, 1000), Rat::new(1_000_000, 1))
}

#[test]
fn sphere_head_on_hit() {
    // A ray from the origin toward (0,0,-1) against a sphere centered there
    // with radius one half, in ticks of 1/1000: hit at t = 1/2 with surface
    // normal (0,0,1).
    let sphere = Sphere::new(Vec3::new(0, 0, -1000), 500, 3);
    let ray = Ray::new(Vec3::new(0, 0, 0), Vec3::new(0, 0, -1000));
    let hr = sphere.hit(&ray, &query_interval()).expect("the ray hits the sphere");
    assert!(hr.t.eq_val(&Rat::new(1, 2)));
    assert!(hr.face == Face::Front);
    assert!(hr.normal.eq_val(&RatVec3 { num: Vec3::new(0, 0, 1), den: 1 }));
    assert!(hr.p.eq_val(&RatVec3 { num: Vec3::new(0, 0, -500), den: 1 }));
    assert_eq!(hr.material, 3);
}

#[test]
fn sphere_missed_entirely() {
    // Aimed parallel to the sphere's axis but offset beyond the radius.
    let sphere = Sphere::new(Vec3::new(0, 0, -1000), 500, 0);
    let ray = Ray::new(Vec3::new(1000, 0, 0), Vec3::new(0, 0, -1));
    assert!(sphere.hit(&ray, &query_interval()).is_none());
}

#[test]
fn sphere_hit_from_inside_reports_back_face() {
    let sphere = Sphere::new(Vec3::new(0, 0, 0), 500, 0);
    let ray = Ray::new(Vec3::new(0, 0, 0), Vec3::new(0, 0, -1));
    let hr = sphere.hit(&ray, &query_interval()).expect("the ray exits the sphere");
    assert!(hr.t.eq_val(&Rat::new(500, 1)));
    assert!(hr.face == Face::Back);
    // The stored normal opposes the ray: it points back toward +z.
    assert!(hr.normal.eq_val(&RatVec3 { num: Vec3::new(0, 0, 1), den: 1 }));
}

#[test]
fn sphere_behind_ray_is_not_hit() {
    let sphere = Sphere::new(Vec3::new(0, 0, 1000), 500, 0);
    let ray = Ray::new(Vec3::new(0, 0, 0), Vec3::new(0, 0, -1000));
    assert!(sphere.hit(&ray, &query_interval()).is_none());
}

#[test]
fn world_returns_nearest_hit() {
    let mut world = World::new();
    world.push(Sphere::new(Vec3::new(0, 0, -2000), 500, 0));
    world.push(Sphere::new(Vec3::new(0, 0, -8000), 500, 1));
    let ray = Ray::new(Vec3::new(0, 0, 0), Vec3::new(0, 0, -1000));
    let hr = world.hit(&ray, &query_interval()).expect("the ray hits the scene");
    assert_eq!(hr.material, 0);
    assert!(hr.t.eq_val(&Rat::new(3, 2)));
}

#[test]
fn world_nearest_hit_ignores_list_order() {
    let mut world = World::new();
    world.push(Sphere::new(Vec3::new(0, 0, -8000), 500, 1));
    world.push(Sphere::new(Vec3::new(0, 0, -2000), 500, 0));
    let ray = Ray::new(Vec3::new(0, 0, 0), Vec3::new(0, 0, -1000));
    let hr = world.hit(&ray, &query_interval()).expect("the ray hits the scene");
    assert_eq!(hr.material, 0);
    assert!(hr.t.eq_val(&Rat::new(3, 2)));
}

#[test]
fn world_miss_returns_none() {
    let mut world = World::new();
    world.push(Sphere::new(Vec3::new(0, 0, -2000), 500, 0));
    let ray = Ray::new(Vec3::new(0, 0, 0), Vec3::new(0, 0, 1000));
    assert!(world.hit(&ray, &query_interval()).is_none());
}

#[test]
fn interval_surrounds_is_strict() {
    let i = Interval::new(Rat::new(1, 1000), Rat::new(10, 1));
    assert!(!i.surrounds(&Rat::new(1, 1000)));
    assert!(!i.surrounds(&Rat::new(10, 1)));
    assert!(i.surrounds(&Rat::new(5, 1)));
    assert!(!i.surrounds(&Rat::new(0, 1)));
    assert!(!i.surrounds(&Rat::new(11, 1)));
    // Equal values in another representation are still excluded.
    assert!(!i.surrounds(&Rat::new(2, 2000)));
}

#[test]
fn interval_clamp_saturates() {
    let i = Interval::new(Rat::new(0, 1), Rat::new(999, 1000));
    assert!(i.clamp(&Rat::new(-1, 2)).eq_val(&Rat::new(0, 1)));
    assert!(i.clamp(&Rat::new(1, 2)).eq_val(&Rat::new(1, 2)));
    assert!(i.clamp(&Rat::new(3, 2)).eq_val(&Rat::new(999, 1000)));
}

#[test]
fn ray_at_evaluates_exactly() {
    let ray = Ray::new(Vec3::new(10, 20, 30), Vec3::new(1, -2, 4));
    let p = ray.at(&Rat::new(3, 2));
    // (10,20,30) + 3/2 * (1,-2,4) = (23/2, 17, 36).
    assert!(p.eq_val(&RatVec3 { num: Vec3::new(23, 34, 72), den: 2 }));
    assert_eq!(ray.origin(), &Vec3::new(10, 20, 30));
    assert_eq!(ray.direction(), &Vec3::new(1, -2, 4));
}

#[test]
fn world_hit_is_minimum_of_sphere_hits() {
    let spheres = [
        Sphere::new(Vec3::new(0, 0, -6000), 500, 0),
        Sphere::new(Vec3::new(0, 0, -2000), 500, 1),
        Sphere::new(Vec3::new(0, 500, -4000), 600, 2),
        Sphere::new(Vec3::new(0, 30000, 0), 500, 3),
    ];
    let mut world = World::new();
    for s in spheres {
        world.push(s);
    }
    let ray = Ray::new(Vec3::new(0, 0, 0), Vec3::new(0, 0, -1000));
    let window = query_interval();
    let hr = world.hit(&ray, &window).expect("the ray hits the scene");
    // The aggregate's parameter equals the least per-sphere parameter.
    let mut best: Option<Rat> = None;
    for s in spheres {
        if let Some(single) = s.hit(&ray, &window) {
            best = match best {
                Some(b) if b.lt(&single.t) => Some(b),
                _ => Some(single.t),
            };
        }
    }
    let best = best.expect("some sphere hits");
    assert!(hr.t.eq_val(&best));
    assert_eq!(hr.material, 1);
}
