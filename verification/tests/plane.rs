use raytracer_core::color::RGBColor;
use raytracer_core::ratio::Ratio;
use raytracer_core::shape::GeometricObject;
use raytracer_core::shape::Plane;
use raytracer_core::vector3::Vector3;

#[test]
fn test_new() {
    let p = Plane::new(Vector3::zero(), Vector3::new(1, 2, 3, 1));
    assert!(p.normal().is_normalized());
}

#[test]
fn test_hit() {
    let plane1 = Plane::new(Vector3::zero(), Vector3::new(1, 1, 1, 1));
    let ray1 = raytracer_core::ray::Ray::new(Vector3::zero(), Vector3::up());
    let (hit1, t1, s1) = plane1.hit(&ray1);
    assert!(!hit1);
    assert!(t1.is_none());
    assert!(s1.is_none());

    let mut plane2 = Plane::new(Vector3::zero(), Vector3::up());
    let c = RGBColor::new(1, 2, 3, 10);
    plane2.set_color(c);

    let ray2 = raytracer_core::ray::Ray::new(Vector3::new(0, -1, 0, 1), Vector3::new(0, 2, 0, 1));
    let (hit2, t2, s2) = plane2.hit(&ray2);
    assert!(hit2);
    let one = Ratio::new(1, 1);
    assert!(t2.unwrap().same_value(&one));
    match s2 {
        Some(s) => {
            assert!(s.hit_an_object());
            assert!(s.local_hit_point().same_value(&Vector3::zero()));
            assert!(s.normal().same_value(&Vector3::up()));
            assert_eq!(s.color(), c);
        },
        None => assert!(false),
    }
}

#[test]
fn test_color() {
    let mut p = Plane::new(Vector3::zero(), Vector3::new(1, 2, 3, 1));
    let c = RGBColor::new(1, 2, 3, 10);
    p.set_color(c);
    assert_eq!(p.color(), c);
}

#[test]
fn test_normalization_invariant() {
    // A clearly non-unit normal with a fractional denominator still yields a
    // unit stored normal.
    let p = Plane::new(Vector3::new(5, 5, 0, 2), Vector3::new(7, -3, 11, 4));
    assert!(p.normal().is_normalized());
    // An axis-aligned input that is already unit is kept exactly.
    let q = Plane::new(Vector3::zero(), Vector3::up());
    assert!(q.normal().is_normalized());
    assert!(q.normal().same_value(&Vector3::up()));
}

#[test]
fn test_idempotent_normalization() {
    // Normalize once through construction, then feed the stored normal into a
    // second construction: it is kept exactly.
    let once = Plane::new(Vector3::zero(), Vector3::new(0, 2, 0, 1)).normal();
    assert!(once.is_normalized());
    let twice = Plane::new(Vector3::zero(), once).normal();
    assert_eq!(twice.x, once.x);
    assert_eq!(twice.y, once.y);
    assert_eq!(twice.z, once.z);
    assert_eq!(twice.den, once.den);
    assert!(twice.same_value(&Vector3::up()));
}

#[test]
fn test_vector_operations() {
    // The hit point of the exact example satisfies origin + t * direction.
    let plane = Plane::new(Vector3::zero(), Vector3::up());
    let origin = Vector3::new(0, -1, 0, 1);
    let ray = raytracer_core::ray::Ray::new(origin, Vector3::up());
    let (hit, t, s) = plane.hit(&ray);
    assert!(hit);
    let reached = origin.plus(&ray.direction().scaled(&t.unwrap()));
    assert!(reached.same_value(&s.unwrap().local_hit_point()));
    // The difference of a point and itself is the zero vector, and its dot
    // product with anything is zero.
    let diff = origin.minus(&origin);
    assert!(diff.same_value(&Vector3::zero()));
    assert!(diff.dot(&Vector3::up()).same_value(&Ratio::new(0, 1)));
}

#[test]
fn test_perpendicular_ray_misses() {
    // Direction (1,0,0) is perpendicular to the normal (0,1,0); the origin
    // (0,1,0) lies off the plane through the origin.
    let plane = Plane::new(Vector3::zero(), Vector3::up());
    assert!(Vector3::new(1, 0, 0, 1).dot(&Vector3::up()).same_value(&Ratio::new(0, 1)));
    let ray = raytracer_core::ray::Ray::new(Vector3::new(0, 1, 0, 1), Vector3::new(1, 0, 0, 1));
    let (hit, t, s) = plane.hit(&ray);
    assert!(!hit);
    assert!(t.is_none());
    assert!(s.is_none());
}

#[test]
fn test_hit_behind_origin_misses() {
    // The intersection lies behind the ray origin: t = -1, below EPSILON.
    let plane = Plane::new(Vector3::zero(), Vector3::up());
    let ray = raytracer_core::ray::Ray::new(Vector3::new(0, 1, 0, 1), Vector3::up());
    let (hit, t, s) = plane.hit(&ray);
    assert!(!hit);
    assert!(t.is_none());
    assert!(s.is_none());
}

#[test]
fn test_color_pass_through() {
    let mut plane = Plane::new(Vector3::zero(), Vector3::up());
    let first = RGBColor::new(9, 9, 9, 10);
    let second = RGBColor::new(1, 2, 3, 10);
    plane.set_color(first);
    plane.set_color(second);
    assert_eq!(plane.color(), second);
    let ray = raytracer_core::ray::Ray::new(Vector3::new(0, -1, 0, 1), Vector3::up());
    let (hit, _, s) = plane.hit(&ray);
    assert!(hit);
    assert_eq!(s.unwrap().color(), second);
}
