//! Triangle and box hit testing, including edge inclusivity.
use orbit_scene::geometry::BoundingBox;
use orbit_scene::geometry::Point2;
use orbit_scene::geometry::Triangle;

fn p(x: i32, y: i32) -> Point2 {
    Point2 { x, y }
}

#[test]
fn triangle_contains_interior_point() {
    let t = Triangle::new(p(0, 0), p(10, 0), p(0, 10));
    assert!(t.intersects(&p(2, 2)));
}

#[test]
fn triangle_excludes_exterior_point() {
    let t = Triangle::new(p(0, 0), p(10, 0), p(0, 10));
    assert!(!t.intersects(&p(11, 11)));
    assert!(!t.intersects(&p(-1, 5)));
}

#[test]
fn triangle_edge_points_are_contained() {
    // Inclusive test: points exactly on an edge or a corner count.
    let t = Triangle::new(p(0, 0), p(10, 0), p(0, 10));
    assert!(t.intersects(&p(5, 0)), "on a horizontal edge");
    assert!(t.intersects(&p(0, 7)), "on a vertical edge");
    assert!(t.intersects(&p(5, 5)), "on the hypotenuse");
    assert!(t.intersects(&p(0, 0)), "at a corner");
}

#[test]
fn shared_edge_leaves_no_gap() {
    // Two triangles sharing the diagonal of a square: every point of the
    // shared edge is contained in at least one (here: both).
    let lo = Triangle::new(p(0, 0), p(10, 0), p(10, 10));
    let hi = Triangle::new(p(0, 0), p(10, 10), p(0, 10));
    for k in 0..=10 {
        let q = p(k, k);
        assert!(
            lo.intersects(&q) || hi.intersects(&q),
            "diagonal point must hit one triangle"
        );
        assert!(lo.intersects(&q) && hi.intersects(&q), "in fact both");
    }
}

#[test]
fn winding_direction_does_not_matter() {
    let cw = Triangle::new(p(0, 0), p(0, 10), p(10, 0));
    assert!(cw.intersects(&p(2, 2)));
    assert!(!cw.intersects(&p(20, 2)));
}

#[test]
fn box_collider_covers_exactly_the_box() {
    let b = BoundingBox::new(p(0, 0), p(10, 10));
    let ts = b.collider();
    assert_eq!(ts.len(), 2);
    let hit = |q: Point2| ts[0].intersects(&q) || ts[1].intersects(&q);
    assert!(hit(p(5, 5)));
    assert!(hit(p(0, 0)), "corner is inclusive");
    assert!(hit(p(10, 10)), "far corner is inclusive");
    assert!(hit(p(0, 5)), "edge is inclusive");
    assert!(!hit(p(11, 5)));
    assert!(!hit(p(-1, 5)));
    assert!(!hit(p(5, 11)));
    assert!(b.contains_point(&p(5, 5)));
    assert!(!b.contains_point(&p(11, 5)));
}
