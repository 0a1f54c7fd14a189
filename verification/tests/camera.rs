//! Camera kinematics: radius updates stay positive, angles wrap, and the
//! hit-test projection scales by zoom over radius.
use orbit_scene::camera::Camera;
use orbit_scene::camera::MAX_RADIUS;
use orbit_scene::geometry::Point3;

fn origin() -> Point3 {
    Point3 { x: 0, y: 0, z: 0 }
}

#[test]
fn update_radius_grows_multiplicatively() {
    let mut c = Camera::new(origin(), 1000, 0, 0);
    c.update_radius(500);
    assert_eq!(c.radius, 1500, "radius += 500/1000 of itself");
}

#[test]
fn update_radius_shrinks_multiplicatively() {
    let mut c = Camera::new(origin(), 1500, 0, 0);
    c.update_radius(-999);
    // 1500 - (999 * 1500) / 1000 = 1500 - 1498 (truncated) = 2
    assert_eq!(c.radius, 2);
}

#[test]
fn radius_stays_positive_under_scroll_sequences() {
    // Any sequence of deltas below one whole unit in magnitude keeps the
    // radius strictly positive.
    let mut c = Camera::new(origin(), 40_000, 0, 0);
    for _ in 0..200 {
        c.update_radius(-999);
        assert!(c.radius >= 1, "radius must stay strictly positive");
    }
    assert_eq!(c.radius, 1, "the floor is one fixed-point step");
    for _ in 0..200 {
        c.update_radius(999);
    }
    assert!(c.radius >= 1);
    assert!(c.radius <= MAX_RADIUS);
}

#[test]
fn radius_saturates_at_its_bound() {
    let mut c = Camera::new(origin(), MAX_RADIUS, 0, 0);
    c.update_radius(999);
    assert_eq!(c.radius, MAX_RADIUS);
}

#[test]
fn angles_wrap_at_a_full_turn() {
    let mut c = Camera::new(origin(), 1000, u32::MAX, 0);
    c.rotate_phi(1);
    assert_eq!(c.phi, 0, "azimuth wraps");
    c.rotate_theta(-1);
    assert_eq!(c.theta, u32::MAX, "elevation wraps the other way");
    c.rotate_phi(10);
    assert_eq!(c.phi, 10);
}

#[test]
fn projection_scales_by_zoom_over_radius() {
    // zoom is 256: a point 1000 units out at radius 1000 lands at 256.
    let c = Camera::new(origin(), 1000, 0, 0);
    let q = c.project_point(&Point3 { x: 1000, y: -500, z: 0 });
    assert_eq!(q.x, 256);
    assert_eq!(q.y, -128);
}

#[test]
fn projection_is_relative_to_the_orbit_origin() {
    let c = Camera::new(Point3 { x: 1000, y: 0, z: 0 }, 1000, 0, 0);
    let q = c.project_point(&Point3 { x: 1000, y: 0, z: 77 });
    assert_eq!(q.x, 0);
    assert_eq!(q.y, 0);
}
