use raytracer_core::color::RGBColor;
use raytracer_core::ray::Ray;
use raytracer_core::shape::GeometricObject;
use raytracer_core::shape::Plane;
use raytracer_core::tracer::MultipleObjects;
use raytracer_core::tracer::Tracer;
use raytracer_core::vector3::Vector3;
use raytracer_core::world::World;

fn two_plane_scene() -> (World<Plane>, RGBColor, RGBColor) {
    // The farther plane (y = 1, hit at t = 2) comes first in the collection;
    // the nearer one (y = 0, hit at t = 1) second.
    let mut far = Plane::new(Vector3::new(0, 1, 0, 1), Vector3::up());
    let far_color = RGBColor::new(8, 0, 0, 10);
    far.set_color(far_color);
    let mut near = Plane::new(Vector3::zero(), Vector3::up());
    let near_color = RGBColor::new(0, 8, 0, 10);
    near.set_color(near_color);
    let mut w: World<Plane> = World::new();
    w.add_object(far);
    w.add_object(near);
    (w, far_color, near_color)
}

#[test]
fn test_nearest_hit_selection() {
    let (w, _far_color, near_color) = two_plane_scene();
    let ray = Ray::new(Vector3::new(0, -1, 0, 1), Vector3::up());
    let rec = w.hit_objects(&ray).unwrap();
    assert!(rec.hit_an_object());
    // The winning record belongs to the nearer plane: hit point (0,0,0).
    assert!(rec.local_hit_point().same_value(&Vector3::zero()));
    assert_eq!(rec.color(), near_color);
}

#[test]
fn test_tie_first_wins() {
    // Two planes with the same geometry: on equal distances the primitive
    // that comes first in the collection wins.
    let mut first = Plane::new(Vector3::zero(), Vector3::up());
    let first_color = RGBColor::new(1, 0, 0, 1);
    first.set_color(first_color);
    let mut second = Plane::new(Vector3::zero(), Vector3::up());
    second.set_color(RGBColor::new(0, 1, 0, 1));
    let mut w: World<Plane> = World::new();
    w.add_object(first);
    w.add_object(second);
    let ray = Ray::new(Vector3::new(0, -1, 0, 1), Vector3::up());
    let rec = w.hit_objects(&ray).unwrap();
    assert_eq!(rec.color(), first_color);
}

#[test]
fn test_trace_ray_hit_color() {
    let (w, _far_color, near_color) = two_plane_scene();
    let tr = MultipleObjects::new(w);
    let ray = Ray::new(Vector3::new(0, -1, 0, 1), Vector3::up());
    assert_eq!(tr.trace_ray(&ray), Some(near_color));
}

#[test]
fn test_no_hit_propagation() {
    // A ray pointing away from every plane: no record, no color.
    let (w, _far_color, _near_color) = two_plane_scene();
    let ray = Ray::new(Vector3::new(0, 2, 0, 1), Vector3::up());
    assert!(w.hit_objects(&ray).is_none());
    let tr = MultipleObjects::new(w);
    assert_eq!(tr.trace_ray(&ray), None);
}

#[test]
fn test_empty_world_traces_none() {
    let w: World<Plane> = World::new();
    let tr = MultipleObjects::new(w);
    let ray = Ray::new(Vector3::zero(), Vector3::up());
    assert_eq!(tr.trace_ray(&ray), None);
}

#[test]
fn test_parallel_ray_misses_world() {
    // A ray parallel to the only plane, launched off it, yields no hit even
    // though the signed distance numerator is nonzero.
    let mut w: World<Plane> = World::new();
    w.add_object(Plane::new(Vector3::zero(), Vector3::up()));
    let ray = Ray::new(Vector3::new(0, 1, 0, 1), Vector3::new(1, 0, 0, 1));
    assert!(w.hit_objects(&ray).is_none());
}
