//! The orbit camera's kinematic state, in fixed-point integer units.
//!
//! The camera orbits an origin at a distance (`radius`, in units of
//! `1/RADIUS_SCALE`) under two angles (`phi`, `theta`, in turn fractions of
//! `1/2^32`).  Scroll input changes the radius multiplicatively, so the
//! radius stays strictly positive for any sequence of bounded deltas; the
//! floating-point view/projection matrix is the embedder's concern and is
//! computed outside this crate from the state kept here.
use crate::geometry::Point2;
use crate::geometry::Point3;
use vstd::arithmetic::div_mod::lemma_add_mod_noop;
use vstd::arithmetic::div_mod::lemma_fundamental_div_mod;
use vstd::prelude::*;

verus! {

/// Scroll deltas are measured in units of `1/RADIUS_SCALE` of the current
/// radius per event.
pub const RADIUS_SCALE: u64 = 1000;

/// Upper bound the radius saturates at, so that the fixed-point update
/// arithmetic stays inside `u64`.
pub const MAX_RADIUS: u64 = 0x1_0000_0000;

/// One full turn of an orbit angle, in angle units.
pub const FULL_TURN: u64 = 0x1_0000_0000;

/// Fixed-point zoom factor of the hit-test projection.
pub const PROJECTION_ZOOM: i64 = 256;

/// Truncating division (rounds toward zero), for a positive divisor.
pub open spec fn tdiv(a: int, b: int) -> int
    recommends
        b > 0,
{
    if a >= 0 {
        a / b
    } else {
        -((-a) / b)
    }
}

/// `v` clamped into the `i32` range.
pub open spec fn clamp_to_i32(v: int) -> int {
    if v > i32::MAX {
        i32::MAX as int
    } else if v < i32::MIN {
        i32::MIN as int
    } else {
        v
    }
}

/// One radius update: the radius grows or shrinks by `delta/RADIUS_SCALE`
/// of itself (truncated), and saturates at [`MAX_RADIUS`].
pub open spec fn spec_update_radius(r: int, delta: int) -> int
    recommends
        1 <= r <= MAX_RADIUS,
        -(RADIUS_SCALE as int) < delta < RADIUS_SCALE as int,
{
    if delta >= 0 {
        let grown = r + (delta * r) / (RADIUS_SCALE as int);
        if grown > MAX_RADIUS as int {
            MAX_RADIUS as int
        } else {
            grown
        }
    } else {
        r - ((-delta) * r) / (RADIUS_SCALE as int)
    }
}

/// The radius after a whole sequence of scroll deltas.
pub open spec fn apply_scroll_deltas(r: int, deltas: Seq<int>) -> int
    decreases deltas.len(),
{
    if deltas.len() == 0 {
        r
    } else {
        apply_scroll_deltas(spec_update_radius(r, deltas[0]), deltas.drop_first())
    }
}

/// The orbit camera state.
pub struct Camera {
    /// Point the camera orbits, in fixed-point world units.
    pub origin: Point3,
    /// Distance from the origin, in units of `1/RADIUS_SCALE`.
    pub radius: u64,
    /// Azimuth, in turn fractions of `1/2^32`.
    pub phi: u32,
    /// Elevation, in turn fractions of `1/2^32`.
    pub theta: u32,
}

impl Camera {
    /// The radius is strictly positive and small enough for the update
    /// arithmetic.
    pub open spec fn wf(self) -> bool {
        1 <= self.radius <= MAX_RADIUS
    }

    /// Where a world point lands on the screen under the hit-test
    /// projection: a reference-view weak perspective that scales the `x`/`y`
    /// offset from the orbit origin by `PROJECTION_ZOOM / radius` and clamps
    /// into screen range.  Orbit angles deliberately do not enter hit
    /// testing; the drawn image uses the embedder's full projection instead.
    pub open spec fn spec_project(self, p: Point3) -> Point2 {
        Point2 {
            x: clamp_to_i32(tdiv((p.x - self.origin.x) * PROJECTION_ZOOM, self.radius as int))
                as i32,
            y: clamp_to_i32(tdiv((p.y - self.origin.y) * PROJECTION_ZOOM, self.radius as int))
                as i32,
        }
    }

    pub fn new(origin: Point3, radius: u64, phi: u32, theta: u32) -> (c: Camera)
        requires
            1 <= radius <= MAX_RADIUS,
        ensures
            c == (Camera { origin, radius, phi, theta }),
            c.wf(),
    {
        Camera { origin, radius, phi, theta }
    }

    /// Turns the azimuth by `delta_phi` angle units, wrapping at a full turn.
    pub fn rotate_phi(&mut self, delta_phi: i32)
        ensures
            final(self).phi == (old(self).phi + delta_phi) % (FULL_TURN as int),
            final(self).theta == old(self).theta,
            final(self).radius == old(self).radius,
            final(self).origin == old(self).origin,
    {
        proof {
            lemma_wrapping_add_signed_is_mod(self.phi, delta_phi);
        }
        self.phi = self.phi.wrapping_add_signed(delta_phi);
    }

    /// Turns the elevation by `delta_theta` angle units, wrapping at a full
    /// turn.
    pub fn rotate_theta(&mut self, delta_theta: i32)
        ensures
            final(self).theta == (old(self).theta + delta_theta) % (FULL_TURN as int),
            final(self).phi == old(self).phi,
            final(self).radius == old(self).radius,
            final(self).origin == old(self).origin,
    {
        proof {
            lemma_wrapping_add_signed_is_mod(self.theta, delta_theta);
        }
        self.theta = self.theta.wrapping_add_signed(delta_theta);
    }

    /// Grows or shrinks the radius by `delta/RADIUS_SCALE` of itself.  The
    /// result stays strictly positive because the shrink step, truncated
    /// toward zero, is strictly smaller than the radius.
    pub fn update_radius(&mut self, delta: i64)
        requires
            old(self).wf(),
            -(RADIUS_SCALE as int) < delta < RADIUS_SCALE as int,
        ensures
            final(self).radius == spec_update_radius(old(self).radius as int, delta as int),
            final(self).wf(),
            final(self).phi == old(self).phi,
            final(self).theta == old(self).theta,
            final(self).origin == old(self).origin,
    {
        if delta >= 0 {
            let d = delta as u64;
            proof {
                assert(d * self.radius <= 1000 * 0x1_0000_0000) by (nonlinear_arith)
                    requires
                        0 <= d < 1000,
                        self.radius <= 0x1_0000_0000;
                lemma_scaled_shrink_is_small(d as int, self.radius as int);
            }
            let grown = self.radius + (d * self.radius) / RADIUS_SCALE;
            self.radius = if grown > MAX_RADIUS {
                MAX_RADIUS
            } else {
                grown
            };
        } else {
            let d = (-delta) as u64;
            proof {
                assert(d * self.radius <= 1000 * 0x1_0000_0000) by (nonlinear_arith)
                    requires
                        0 <= d < 1000,
                        self.radius <= 0x1_0000_0000;
                lemma_scaled_shrink_is_small(d as int, self.radius as int);
            }
            let shrink = (d * self.radius) / RADIUS_SCALE;
            self.radius = self.radius - shrink;
        }
    }

    /// Projects a world point to the screen; see [`Camera::spec_project`].
    pub fn project_point(&self, p: &Point3) -> (r: Point2)
        requires
            self.wf(),
        ensures
            r == self.spec_project(*p),
    {
        Point2 {
            x: project_coord(p.x, self.origin.x, self.radius),
            y: project_coord(p.y, self.origin.y, self.radius),
        }
    }
}

/// One clamped, truncated fixed-point division of the projection.
fn project_coord(coord: i32, origin: i32, radius: u64) -> (r: i32)
    requires
        1 <= radius,
    ensures
        r == clamp_to_i32(tdiv((coord - origin) * PROJECTION_ZOOM, radius as int)),
{
    let d: i64 = (coord as i64 - origin as i64) * PROJECTION_ZOOM;
    if d >= 0 {
        let q = (d as u64) / radius;
        proof {
            assert(q <= d);
        }
        if q > i32::MAX as u64 {
            i32::MAX
        } else {
            q as i32
        }
    } else {
        let q = ((-d) as u64) / radius;
        proof {
            assert(q <= -d);
        }
        if q >= 0x8000_0000u64 {
            i32::MIN
        } else {
            let qi = q as i32;
            -qi
        }
    }
}

/// The truncated shrink step is strictly smaller than the radius itself.
proof fn lemma_scaled_shrink_is_small(d: int, r: int)
    requires
        0 <= d < RADIUS_SCALE as int,
        1 <= r,
    ensures
        0 <= (d * r) / (RADIUS_SCALE as int) < r,
{
    let s = RADIUS_SCALE as int;
    lemma_fundamental_div_mod(d * r, s);
    let q = (d * r) / s;
    let m = (d * r) % s;
    assert(d * r < s * r && d * r >= 0) by (nonlinear_arith)
        requires
            0 <= d < s,
            1 <= r,
            s == RADIUS_SCALE as int;
    assert(q >= 0) by (nonlinear_arith)
        requires
            d * r == s * q + m,
            0 <= m < s,
            d * r >= 0,
            s > 0;
    assert(q < r) by (nonlinear_arith)
        requires
            d * r == s * q + m,
            0 <= m < s,
            d * r < s * r,
            s > 0;
}

/// `wrapping_add_signed` realizes addition modulo a full turn.
proof fn lemma_wrapping_add_signed_is_mod(x: u32, y: i32)
    ensures
        vstd::wrapping::u32_specs::wrapping_add_signed(x, y) == (x + y) % (FULL_TURN as int),
{
    let t = FULL_TURN as int;
    let sum = x + y;
    lemma_add_mod_noop(sum, t, t);
    assert(t % t == 0) by {
        lemma_fundamental_div_mod(t, t);
        assert(t == t * 1 + 0);
        assert(t / t == 1 && t % t == 0) by {
            vstd::arithmetic::div_mod::lemma_div_by_self(t);
            lemma_fundamental_div_mod(t, t);
        }
    }
    if sum > u32::MAX {
        assert((sum - t) % t == ((sum % t) + (t % t)) % t == (sum % t) % t) by {
            lemma_add_mod_noop(sum - t, t, t);
        }
        assert(0 <= sum - t < t);
        vstd::arithmetic::div_mod::lemma_small_mod((sum - t) as nat, t as nat);
        assert((sum - t) % t == sum - t);
        lemma_add_mod_noop(sum - t, t, t);
        vstd::arithmetic::div_mod::lemma_mod_twice(sum - t, t);
    } else if sum < 0 {
        assert(0 <= sum + t < t);
        vstd::arithmetic::div_mod::lemma_small_mod((sum + t) as nat, t as nat);
        lemma_add_mod_noop(sum + t, t, t);
        vstd::arithmetic::div_mod::lemma_mod_twice(sum + t, t);
    } else {
        vstd::arithmetic::div_mod::lemma_small_mod(sum as nat, t as nat);
    }
}

/// Radius positivity: starting from any well-formed radius, applying any
/// sequence of scroll deltas, each smaller in magnitude than one whole unit,
/// keeps the radius strictly positive (and within the saturation bound).
pub proof fn lemma_radius_stays_positive(r: int, deltas: Seq<int>)
    requires
        1 <= r <= MAX_RADIUS as int,
        forall|i: int| 0 <= i < deltas.len() ==> -(RADIUS_SCALE as int) < #[trigger] deltas[i]
            < RADIUS_SCALE as int,
    ensures
        1 <= apply_scroll_deltas(r, deltas) <= MAX_RADIUS as int,
    decreases deltas.len(),
{
    if deltas.len() > 0 {
        lemma_update_radius_stays_positive(r, deltas[0]);
        lemma_radius_stays_positive(spec_update_radius(r, deltas[0]), deltas.drop_first());
    }
}

/// One radius update keeps the radius strictly positive and bounded.
pub proof fn lemma_update_radius_stays_positive(r: int, delta: int)
    requires
        1 <= r <= MAX_RADIUS as int,
        -(RADIUS_SCALE as int) < delta < RADIUS_SCALE as int,
    ensures
        1 <= spec_update_radius(r, delta) <= MAX_RADIUS as int,
{
    if delta >= 0 {
        lemma_scaled_shrink_is_small(delta, r + 1);
        assert((delta * r) / (RADIUS_SCALE as int) >= 0) by {
            lemma_fundamental_div_mod(delta * r, RADIUS_SCALE as int);
            let s = RADIUS_SCALE as int;
            let q = (delta * r) / s;
            let m = (delta * r) % s;
            assert(delta * r >= 0) by (nonlinear_arith)
                requires
                    delta >= 0,
                    r >= 1;
            assert(q >= 0) by (nonlinear_arith)
                requires
                    delta * r == s * q + m,
                    0 <= m < s,
                    delta * r >= 0,
                    s > 0;
        }
    } else {
        lemma_scaled_shrink_is_small(-delta, r);
    }
}

} // verus!
