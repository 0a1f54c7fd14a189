//! Screen-space geometry primitives: integer points, triangles with an
//! inclusive point-containment test, and axis-aligned bounding boxes whose
//! colliders are triangle pairs.
//!
//! All coordinates are plain integers; where the rest of the crate needs
//! fractional values it uses fixed-point units.
use vstd::prelude::*;

verus! {

/// A screen-space point.
#[derive(Clone, Copy, PartialEq, Eq, Structural, Debug)]
pub struct Point2 {
    pub x: i32,
    pub y: i32,
}

/// A point of object-local 3D geometry, in fixed-point units.
#[derive(Clone, Copy, PartialEq, Eq, Structural, Debug)]
pub struct Point3 {
    pub x: i32,
    pub y: i32,
    pub z: i32,
}

/// Twice the signed area of the triangle `(a, b, p)`: positive when `p` lies
/// to the left of the directed edge `a -> b`, zero when collinear.
pub open spec fn cross(a: Point2, b: Point2, p: Point2) -> int {
    (b.x - a.x) * (p.y - a.y) - (b.y - a.y) * (p.x - a.x)
}

/// Inclusive point-in-triangle test: `p` is contained when all three edge
/// cross products share a sign, counting zero as either sign, so points on
/// an edge are contained.
pub open spec fn point_in_triangle(a: Point2, b: Point2, c: Point2, p: Point2) -> bool {
    let d1 = cross(a, b, p);
    let d2 = cross(b, c, p);
    let d3 = cross(c, a, p);
    (d1 >= 0 && d2 >= 0 && d3 >= 0) || (d1 <= 0 && d2 <= 0 && d3 <= 0)
}

/// `p` lies on the closed segment from `a` to `b`.
pub open spec fn on_segment(a: Point2, b: Point2, p: Point2) -> bool {
    &&& cross(a, b, p) == 0
    &&& (a.x <= p.x <= b.x || b.x <= p.x <= a.x)
    &&& (a.y <= p.y <= b.y || b.y <= p.y <= a.y)
}

/// A screen-space triangle used for hit testing.
#[derive(Clone, Copy, PartialEq, Eq, Structural, Debug)]
pub struct Triangle {
    pub a: Point2,
    pub b: Point2,
    pub c: Point2,
}

/// What [`Triangle::intersects`] reports.
pub open spec fn triangle_hit(t: Triangle, p: Point2) -> bool {
    point_in_triangle(t.a, t.b, t.c, p)
}

fn cross_exec(a: &Point2, b: &Point2, p: &Point2) -> (r: i128)
    ensures
        r == cross(*a, *b, *p),
{
    let bax = b.x as i128 - a.x as i128;
    let bay = b.y as i128 - a.y as i128;
    let pax = p.x as i128 - a.x as i128;
    let pay = p.y as i128 - a.y as i128;
    proof {
        let lim = 0x1_0000_0000 as int;
        assert(bax * pay < lim * lim && bax * pay > -(lim * lim) && bay * pax < lim * lim && bay
            * pax > -(lim * lim)) by (nonlinear_arith)
            requires
                -lim < bax < lim,
                -lim < bay < lim,
                -lim < pax < lim,
                -lim < pay < lim;
    }
    bax * pay - bay * pax
}

impl Triangle {
    pub fn new(a: Point2, b: Point2, c: Point2) -> (t: Triangle)
        ensures
            t.a == a,
            t.b == b,
            t.c == c,
    {
        Triangle { a, b, c }
    }

    /// Inclusive containment test; boundary points count as contained.
    pub fn intersects(&self, point: &Point2) -> (r: bool)
        ensures
            r == triangle_hit(*self, *point),
    {
        let d1 = cross_exec(&self.a, &self.b, point);
        let d2 = cross_exec(&self.b, &self.c, point);
        let d3 = cross_exec(&self.c, &self.a, point);
        (d1 >= 0 && d2 >= 0 && d3 >= 0) || (d1 <= 0 && d2 <= 0 && d3 <= 0)
    }
}

/// Point-in-triangle inclusivity: a point on the closed edge from `a` to `b`
/// is contained in the triangle `(a, b, c)`.  Two triangles sharing an edge
/// therefore both contain every point of that edge, so hit testing leaves no
/// gap along shared edges.
#[verifier::rlimit(30)]
pub proof fn lemma_edge_point_contained(a: Point2, b: Point2, c: Point2, p: Point2)
    requires
        on_segment(a, b, p),
    ensures
        point_in_triangle(a, b, c, p),
{
    let ax = a.x as int;
    let ay = a.y as int;
    let bx = b.x as int;
    let by = b.y as int;
    let cx = c.x as int;
    let cy = c.y as int;
    let px = p.x as int;
    let py = p.y as int;
    let d2 = cross(b, c, p);
    let d3 = cross(c, a, p);
    let o = cross(a, b, c);
    assert(d2 == (cx - bx) * (py - by) - (cy - by) * (px - bx));
    assert(d3 == (ax - cx) * (py - cy) - (ay - cy) * (px - cx));
    assert(o == (bx - ax) * (cy - ay) - (by - ay) * (cx - ax));
    if ax == bx && ay == by {
        // Degenerate edge: betweenness pins `p` to `a`, and every cross
        // product with a repeated point is zero.
        assert(px == ax && py == ay);
        assert(d2 == 0 && d3 == 0) by (nonlinear_arith)
            requires
                d2 == (cx - bx) * (py - by) - (cy - by) * (px - bx),
                d3 == (ax - cx) * (py - cy) - (ay - cy) * (px - cx),
                px == ax && py == ay && bx == ax && by == ay;
    } else {
        // `p - a` is `k/m` of the way along `b - a`, componentwise.
        let (m, k): (int, int) = if ax != bx {
            (bx - ax, px - ax)
        } else {
            (by - ay, py - ay)
        };
        assert(m != 0);
        assert((0 <= k <= m) || (m <= k <= 0));
        assert(m * (px - ax) == k * (bx - ax) && m * (py - ay) == k * (by - ay))
            by (nonlinear_arith)
            requires
                (bx - ax) * (py - ay) - (by - ay) * (px - ax) == 0,
                (m == bx - ax && k == px - ax) || (bx == ax && m == by - ay && k == py - ay);
        // The two remaining cross products are rational multiples of the
        // triangle's own orientation, with nonnegative coefficients.
        let t = k - m;
        let p1 = m * (py - by);
        let p2 = m * (px - bx);
        let q1 = m * (py - cy);
        let q2 = m * (px - cx);
        assert(p1 == t * (by - ay) && p2 == t * (bx - ax)) by (nonlinear_arith)
            requires
                m * (px - ax) == k * (bx - ax),
                m * (py - ay) == k * (by - ay),
                t == k - m,
                p1 == m * (py - by),
                p2 == m * (px - bx);
        assert(m * d2 == (cx - bx) * p1 - (cy - by) * p2) by (nonlinear_arith)
            requires
                d2 == (cx - bx) * (py - by) - (cy - by) * (px - bx),
                p1 == m * (py - by),
                p2 == m * (px - bx);
        assert((cx - bx) * p1 - (cy - by) * p2 == t * ((cx - bx) * (by - ay) - (cy - by) * (bx
            - ax))) by (nonlinear_arith)
            requires
                p1 == t * (by - ay),
                p2 == t * (bx - ax);
        assert((cx - bx) * (by - ay) - (cy - by) * (bx - ax) == -o) by (nonlinear_arith)
            requires
                o == (bx - ax) * (cy - ay) - (by - ay) * (cx - ax);
        assert(m * d2 == (m - k) * o) by (nonlinear_arith)
            requires
                m * d2 == t * (-o),
                t == k - m;
        assert(q1 == k * (by - ay) - m * (cy - ay) && q2 == k * (bx - ax) - m * (cx - ax))
            by (nonlinear_arith)
            requires
                m * (px - ax) == k * (bx - ax),
                m * (py - ay) == k * (by - ay),
                q1 == m * (py - cy),
                q2 == m * (px - cx);
        assert(m * d3 == (ax - cx) * q1 - (ay - cy) * q2) by (nonlinear_arith)
            requires
                d3 == (ax - cx) * (py - cy) - (ay - cy) * (px - cx),
                q1 == m * (py - cy),
                q2 == m * (px - cx);
        assert((ax - cx) * q1 - (ay - cy) * q2 == k * ((ax - cx) * (by - ay) - (ay - cy) * (bx
            - ax)) - m * ((ax - cx) * (cy - ay) - (ay - cy) * (cx - ax))) by (nonlinear_arith)
            requires
                q1 == k * (by - ay) - m * (cy - ay),
                q2 == k * (bx - ax) - m * (cx - ax);
        assert((ax - cx) * (by - ay) - (ay - cy) * (bx - ax) == o && (ax - cx) * (cy - ay) - (ay
            - cy) * (cx - ax) == 0) by (nonlinear_arith)
            requires
                o == (bx - ax) * (cy - ay) - (by - ay) * (cx - ax);
        assert(m * d3 == k * o);
        if o >= 0 {
            assert(d2 >= 0 && d3 >= 0) by (nonlinear_arith)
                requires
                    m != 0,
                    (0 <= k <= m) || (m <= k <= 0),
                    o >= 0,
                    m * d2 == (m - k) * o,
                    m * d3 == k * o;
        } else {
            assert(d2 <= 0 && d3 <= 0) by (nonlinear_arith)
                requires
                    m != 0,
                    (0 <= k <= m) || (m <= k <= 0),
                    o <= 0,
                    m * d2 == (m - k) * o,
                    m * d3 == k * o;
        }
    }
}

/// No gaps at shared edges: a point exactly on the edge two triangles share
/// is reported as contained for at least one of them (indeed for both), so
/// input jitter along a seam can never produce a false negative.
pub proof fn lemma_shared_edge_no_gap(a: Point2, b: Point2, c1: Point2, c2: Point2, p: Point2)
    requires
        on_segment(a, b, p),
    ensures
        point_in_triangle(a, b, c1, p) || point_in_triangle(a, b, c2, p),
        point_in_triangle(a, b, c1, p) && point_in_triangle(a, b, c2, p),
{
    lemma_edge_point_contained(a, b, c1, p);
    lemma_edge_point_contained(a, b, c2, p);
}

/// An axis-aligned, inclusive screen-space box.
#[derive(Clone, Copy, PartialEq, Eq, Structural, Debug)]
pub struct BoundingBox {
    pub min: Point2,
    pub max: Point2,
}

impl BoundingBox {
    /// The corners are ordered and the box has positive area, so that its
    /// triangle collider covers exactly the box.
    pub open spec fn wf(self) -> bool {
        self.min.x < self.max.x && self.min.y < self.max.y
    }

    /// Inclusive containment.
    pub open spec fn contains(self, p: Point2) -> bool {
        self.min.x <= p.x <= self.max.x && self.min.y <= p.y <= self.max.y
    }

    /// The lower-right half of the box.
    pub open spec fn tri_lo(self) -> Triangle {
        Triangle { a: self.min, b: Point2 { x: self.max.x, y: self.min.y }, c: self.max }
    }

    /// The upper-left half of the box.
    pub open spec fn tri_hi(self) -> Triangle {
        Triangle { a: self.min, b: self.max, c: Point2 { x: self.min.x, y: self.max.y } }
    }

    /// What hit testing against the box's collider reports.
    pub open spec fn collider_hit(self, p: Point2) -> bool {
        triangle_hit(self.tri_lo(), p) || triangle_hit(self.tri_hi(), p)
    }

    pub fn new(min: Point2, max: Point2) -> (b: BoundingBox)
        ensures
            b.min == min,
            b.max == max,
    {
        BoundingBox { min, max }
    }

    /// Inclusive containment test.
    pub fn contains_point(&self, p: &Point2) -> (r: bool)
        ensures
            r == self.contains(*p),
    {
        self.min.x <= p.x && p.x <= self.max.x && self.min.y <= p.y && p.y <= self.max.y
    }

    /// The box's collider: two triangles sharing the main diagonal.
    pub fn collider(&self) -> (ts: Vec<Triangle>)
        ensures
            ts@.len() == 2,
            ts@[0] == self.tri_lo(),
            ts@[1] == self.tri_hi(),
    {
        let mut ts: Vec<Triangle> = Vec::new();
        ts.push(Triangle::new(self.min, Point2 { x: self.max.x, y: self.min.y }, self.max));
        ts.push(Triangle::new(self.min, self.max, Point2 { x: self.min.x, y: self.max.y }));
        ts
    }
}

/// For a well-formed box, hit testing against the two collider triangles
/// reports exactly the points the box contains; the shared diagonal is
/// contained in both triangles.
pub proof fn lemma_box_collider_exact(b: BoundingBox, p: Point2)
    requires
        b.wf(),
    ensures
        b.collider_hit(p) == b.contains(p),
{
    let lo = b.tri_lo();
    let hi = b.tri_hi();
    let w = b.max.x as int - b.min.x as int;
    let h = b.max.y as int - b.min.y as int;
    let u0 = p.x as int - b.min.x as int;
    let u1 = b.max.x as int - p.x as int;
    let v0 = p.y as int - b.min.y as int;
    let v1 = b.max.y as int - p.y as int;
    let e1lo = cross(lo.a, lo.b, p);
    let e2lo = cross(lo.b, lo.c, p);
    let e3lo = cross(lo.c, lo.a, p);
    let e1hi = cross(hi.a, hi.b, p);
    let e2hi = cross(hi.b, hi.c, p);
    let e3hi = cross(hi.c, hi.a, p);
    // Cross products of the two triangles, reduced over the box's extents.
    assert(e1lo == (b.max.x - b.min.x) * (p.y - b.min.y) - (b.min.y - b.min.y) * (p.x - b.min.x));
    assert(e2lo == (b.max.x - b.max.x) * (p.y - b.min.y) - (b.max.y - b.min.y) * (p.x - b.max.x));
    assert(e3lo == (b.min.x - b.max.x) * (p.y - b.max.y) - (b.min.y - b.max.y) * (p.x - b.max.x));
    assert(e1hi == (b.max.x - b.min.x) * (p.y - b.min.y) - (b.max.y - b.min.y) * (p.x - b.min.x));
    assert(e2hi == (b.min.x - b.max.x) * (p.y - b.max.y) - (b.max.y - b.max.y) * (p.x - b.max.x));
    assert(e3hi == (b.min.x - b.min.x) * (p.y - b.max.y) - (b.min.y - b.max.y) * (p.x - b.min.x));
    assert(e1lo == w * v0 && e2lo == h * u1 && e3lo == w * v1 - h * u1 && e1hi == w * v0 - h * u0
        && e2hi == w * v1 && e3hi == h * u0) by (nonlinear_arith)
        requires
            e1lo == (b.max.x - b.min.x) * (p.y - b.min.y) - (b.min.y - b.min.y) * (p.x - b.min.x),
            e2lo == (b.max.x - b.max.x) * (p.y - b.min.y) - (b.max.y - b.min.y) * (p.x - b.max.x),
            e3lo == (b.min.x - b.max.x) * (p.y - b.max.y) - (b.min.y - b.max.y) * (p.x - b.max.x),
            e1hi == (b.max.x - b.min.x) * (p.y - b.min.y) - (b.max.y - b.min.y) * (p.x - b.min.x),
            e2hi == (b.min.x - b.max.x) * (p.y - b.max.y) - (b.max.y - b.max.y) * (p.x - b.max.x),
            e3hi == (b.min.x - b.min.x) * (p.y - b.max.y) - (b.min.y - b.max.y) * (p.x - b.min.x),
            w == b.max.x - b.min.x,
            h == b.max.y - b.min.y,
            u0 == p.x - b.min.x,
            u1 == b.max.x - p.x,
            v0 == p.y - b.min.y,
            v1 == b.max.y - p.y;
    if b.contains(p) {
        if e3lo >= 0 {
            assert(e1lo >= 0 && e2lo >= 0) by (nonlinear_arith)
                requires
                    w > 0 && h > 0 && u1 >= 0 && v0 >= 0,
                    e1lo == w * v0,
                    e2lo == h * u1;
            assert(triangle_hit(lo, p));
        } else {
            assert(e1hi > 0 && e2hi >= 0 && e3hi >= 0) by (nonlinear_arith)
                requires
                    w > 0 && h > 0 && u0 >= 0 && u1 >= 0 && v0 >= 0 && v1 >= 0,
                    u0 + u1 == w && v0 + v1 == h,
                    e3lo < 0,
                    e3lo == w * v1 - h * u1,
                    e1hi == w * v0 - h * u0,
                    e2hi == w * v1,
                    e3hi == h * u0;
            assert(triangle_hit(hi, p));
        }
    } else {
        if u0 < 0 {
            assert(!(e1lo >= 0 && e2lo >= 0 && e3lo >= 0) && !(e1lo <= 0 && e2lo <= 0 && e3lo
                <= 0) && !(e1hi >= 0 && e2hi >= 0 && e3hi >= 0) && !(e1hi <= 0 && e2hi <= 0 && e3hi
                <= 0)) by (nonlinear_arith)
                requires
                    w > 0 && h > 0 && u0 < 0 && u0 + u1 == w && v0 + v1 == h,
                    e1lo == w * v0 && e2lo == h * u1 && e3lo == w * v1 - h * u1,
                    e1hi == w * v0 - h * u0 && e2hi == w * v1 && e3hi == h * u0;
        } else if u1 < 0 {
            assert(!(e1lo >= 0 && e2lo >= 0 && e3lo >= 0) && !(e1lo <= 0 && e2lo <= 0 && e3lo
                <= 0) && !(e1hi >= 0 && e2hi >= 0 && e3hi >= 0) && !(e1hi <= 0 && e2hi <= 0 && e3hi
                <= 0)) by (nonlinear_arith)
                requires
                    w > 0 && h > 0 && u1 < 0 && u0 + u1 == w && v0 + v1 == h,
                    e1lo == w * v0 && e2lo == h * u1 && e3lo == w * v1 - h * u1,
                    e1hi == w * v0 - h * u0 && e2hi == w * v1 && e3hi == h * u0;
        } else if v0 < 0 {
            assert(!(e1lo >= 0 && e2lo >= 0 && e3lo >= 0) && !(e1lo <= 0 && e2lo <= 0 && e3lo
                <= 0) && !(e1hi >= 0 && e2hi >= 0 && e3hi >= 0) && !(e1hi <= 0 && e2hi <= 0 && e3hi
                <= 0)) by (nonlinear_arith)
                requires
                    w > 0 && h > 0 && v0 < 0 && u0 + u1 == w && v0 + v1 == h,
                    e1lo == w * v0 && e2lo == h * u1 && e3lo == w * v1 - h * u1,
                    e1hi == w * v0 - h * u0 && e2hi == w * v1 && e3hi == h * u0;
        } else {
            assert(v1 < 0);
            assert(!(e1lo >= 0 && e2lo >= 0 && e3lo >= 0) && !(e1lo <= 0 && e2lo <= 0 && e3lo
                <= 0) && !(e1hi >= 0 && e2hi >= 0 && e3hi >= 0) && !(e1hi <= 0 && e2hi <= 0 && e3hi
                <= 0)) by (nonlinear_arith)
                requires
                    w > 0 && h > 0 && v1 < 0 && u0 + u1 == w && v0 + v1 == h,
                    e1lo == w * v0 && e2lo == h * u1 && e3lo == w * v1 - h * u1,
                    e1hi == w * v0 - h * u0 && e2hi == w * v1 && e3hi == h * u0;
        }
        assert(!triangle_hit(lo, p) && !triangle_hit(hi, p));
    }
}

} // verus!
