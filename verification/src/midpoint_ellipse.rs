//! Ellipse/circle outline by the classical midpoint (decision-parameter)
//! algorithm.
//!
//! The producer starts at (radius_x, 0) and keeps two decision parameters:
//! `d1` drives the choice between a pure y step and a diagonal step while the
//! tangent slope is shallow (region 1, `d2 < 0`), and `d2` both selects the
//! region and drives the x steps of the steep part (region 2, `x >= 0`).
//! Each parameter is twice the midpoint function of the classical
//! derivation, rounded down once at construction, so all arithmetic stays
//! integral and the comparisons agree exactly with the rational tracker.
//! Like the stopping-bound producer it emits each computed offset four
//! times, reflected into the four quadrants, and advances the shared state
//! once per full quadrant cycle.

use vstd::prelude::*;
use crate::Point;

verus! {

/// Largest radius the producer accepts; keeps every decision variable well
/// inside `i64`.
pub const MAX_RADIUS: i64 = 4096;

/// Largest center coordinate magnitude the producer accepts.
pub const MAX_CENTER: i64 = 1000000000;

/// An implementation of the midpoint ellipse drawing algorithm.
///
/// Each pull returns a point for the first quadrant, then the second, third,
/// fourth, and then back to the first.
pub struct MidpointEllipse {
    pub x: i64,
    pub y: i64,
    pub a: i64,
    pub b: i64,
    pub center_x: i64,
    pub center_y: i64,
    pub d1: i64,
    pub d2: i64,
    pub quadrant: u8,
}

impl MidpointEllipse {
    /// The construction-time value of `d1`: twice the region-1 midpoint
    /// function at the start state, rounded down.
    pub open spec fn d1_init(self) -> int {
        let a = self.a as int;
        let b = self.b as int;
        2 * a * a - 2 * a * b * b + (b * b) / 2
    }

    /// Internal invariant.  `d2` is pinned to a closed form in the current
    /// offsets (x, y); `d1` is updated only on y-stepping cycles, of which
    /// there are at most `b` (y never leaves [0, b]), so it stays within a
    /// band around its initial value that widens with y.
    pub open spec fn wf(self) -> bool {
        let a = self.a as int;
        let b = self.b as int;
        &&& 0 <= a <= MAX_RADIUS
        &&& 0 <= b <= MAX_RADIUS
        &&& -MAX_CENTER <= self.center_x <= MAX_CENTER
        &&& -MAX_CENTER <= self.center_y <= MAX_CENTER
        &&& 1 <= self.quadrant <= 4
        &&& self.d2 == 2 * b * b * (self.x - 1) * (self.x - 1) + 2 * a * a * self.y * self.y + 2
            * a * a * self.y - 2 * a * a * b * b + (a * a) / 2
        &&& 0 <= self.y <= b
        &&& self.x <= a
        &&& self.x + self.y >= -1
        &&& -700000000000 * self.y <= self.d1 - self.d1_init()
        &&& self.d1 - self.d1_init() <= 700000000000 * self.y
    }

    /// The producer still has points to hand out.
    pub open spec fn active(self) -> bool {
        self.d2 < 0 || self.x >= 0
    }

    /// The current offsets reflected into the current quadrant about the
    /// center.
    pub open spec fn emitted(self) -> Point {
        let px = if self.quadrant == 1 || self.quadrant == 4 {
            self.center_x + self.x
        } else {
            self.center_x - self.x
        };
        let py = if self.quadrant == 1 || self.quadrant == 2 {
            self.center_y + self.y
        } else {
            self.center_y - self.y
        };
        ((px as i64), (py as i64))
    }

    /// The region-1 state advance performed after emitting quadrant 4: y
    /// always steps, and x steps as well when `d1` says the midpoint left
    /// the ellipse.
    pub open spec fn advance_region1(self) -> Self {
        let a = self.a as int;
        let b = self.b as int;
        if self.d1 < 0 {
            MidpointEllipse {
                y: (self.y + 1) as i64,
                d1: (self.d1 + 4 * a * a * (self.y + 1) + 2 * a * a) as i64,
                d2: (self.d2 + 4 * a * a * (self.y + 1)) as i64,
                ..self
            }
        } else {
            MidpointEllipse {
                x: (self.x - 1) as i64,
                y: (self.y + 1) as i64,
                d1: (self.d1 + 4 * a * a * (self.y + 1) - 4 * b * b * (self.x - 1) + 2 * a
                    * a) as i64,
                d2: (self.d2 + 4 * a * a * (self.y + 1) - 4 * b * b * (self.x - 1) + 2 * b
                    * b) as i64,
                ..self
            }
        }
    }

    /// The region-2 state advance performed after emitting quadrant 4: x
    /// always steps down.
    pub open spec fn advance_region2(self) -> Self {
        let a = self.a as int;
        let b = self.b as int;
        if self.d2 < 0 {
            MidpointEllipse {
                x: (self.x - 1) as i64,
                y: (self.y + 1) as i64,
                d2: (self.d2 + 4 * a * a * (self.y + 1) - 4 * b * b * (self.x - 1) + 2 * b
                    * b) as i64,
                ..self
            }
        } else {
            MidpointEllipse {
                x: (self.x - 1) as i64,
                d2: (self.d2 + 2 * b * b - 4 * b * b * (self.x - 1)) as i64,
                ..self
            }
        }
    }

    /// One full pull on an active state: advance the shared state after
    /// quadrant 4, then cycle the quadrant counter.
    pub open spec fn cycle(self) -> Self {
        let advanced = if self.quadrant == 4 {
            if self.d2 < 0 {
                self.advance_region1()
            } else {
                self.advance_region2()
            }
        } else {
            self
        };
        MidpointEllipse { quadrant: (self.quadrant % 4 + 1) as u8, ..advanced }
    }

    /// The point returned by the next pull.
    pub open spec fn next_point_spec(self) -> Option<Point> {
        if self.active() {
            Some(self.emitted())
        } else {
            None
        }
    }

    /// The state after the next pull.
    pub open spec fn next_state_spec(self) -> Self {
        if self.active() {
            self.cycle()
        } else {
            self
        }
    }

    /// Create a producer for the axis-aligned ellipse with the given center
    /// and radii, starting at (radius_x, 0) in region 1.  Negative radii are
    /// rejected by precondition.
    pub fn new(center_x: i64, center_y: i64, radius_x: i64, radius_y: i64) -> (r: Self)
        requires
            0 <= radius_x <= MAX_RADIUS,
            0 <= radius_y <= MAX_RADIUS,
            -MAX_CENTER <= center_x <= MAX_CENTER,
            -MAX_CENTER <= center_y <= MAX_CENTER,
        ensures
            r.wf(),
            r.quadrant == 1,
            r.x == radius_x,
            r.y == 0,
            r.a == radius_x,
            r.b == radius_y,
            r.center_x == center_x,
            r.center_y == center_y,
            r.d1 == 2 * radius_x * radius_x - 2 * radius_x * radius_y * radius_y + (radius_y
                * radius_y) / 2,
            r.d2 == (radius_x * radius_x) / 2 - 4 * radius_x * radius_y * radius_y + 2 * radius_y
                * radius_y,
    {
        proof {
            lemma_radius_products(radius_x as int, radius_y as int);
        }
        let a = radius_x;
        let b = radius_y;

        let r = MidpointEllipse {
            x: a,
            y: 0,
            a,
            b,
            center_x,
            center_y,
            d1: (2 * a * a) - (2 * a * b * b) + (b * b / 2),
            d2: (a * a / 2) - (4 * a * b * b) + (2 * b * b),
            quadrant: 1,
        };
        proof {
            let ai = a as int;
            let bi = b as int;
            assert(2 * bi * bi * (ai - 1) * (ai - 1) - 2 * ai * ai * bi * bi == 2 * bi * bi - 4
                * ai * bi * bi) by (nonlinear_arith);
            assert(r.wf());
        }
        r
    }

    /// Produce the point of the current quadrant, advancing the shared state
    /// after quadrant 4; `None` once both region conditions fail.
    pub fn next(&mut self) -> (r: Option<Point>)
        requires
            old(self).wf(),
        ensures
            final(self).wf(),
            r == old(self).next_point_spec(),
            *final(self) == old(self).next_state_spec(),
    {
        let ghost s = *self;
        let ghost a = self.a as int;
        let ghost b = self.b as int;
        proof {
            lemma_radius_products(a, b);
            lemma_m_num(a, b, s.x as int, s.y as int);
        }
        // Region 1: tangent line slope shallower than -1
        if self.d2 < 0 {
            let point: Point = if self.quadrant == 1 {
                (self.center_x + self.x, self.center_y + self.y)
            } else if self.quadrant == 2 {
                (self.center_x - self.x, self.center_y + self.y)
            } else if self.quadrant == 3 {
                (self.center_x - self.x, self.center_y - self.y)
            } else {
                (self.center_x + self.x, self.center_y - self.y)
            };

            // Update the variables after each set of quadrants
            if self.quadrant == 4 {
                proof {
                    lemma_region1_y_room(a, b, s.x as int, s.y as int, s.d2 as int, (a * a) / 2);
                }
                // Check and update the decision parameters
                if self.d1 < 0 {
                    self.y += 1;
                    self.d1 += 4 * self.a * self.a * self.y + 2 * self.a * self.a;
                    self.d2 += 4 * self.a * self.a * self.y;
                    proof {
                        lemma_d2_step_y(a, b, s.x as int, s.y as int);
                    }
                } else {
                    self.x -= 1;
                    self.y += 1;
                    self.d1 += 4 * self.a * self.a * self.y - 4 * self.b * self.b * self.x + 2
                        * self.a * self.a;
                    self.d2 += 4 * self.a * self.a * self.y - 4 * self.b * self.b * self.x + 2
                        * self.b * self.b;
                    proof {
                        lemma_d2_step_xy(a, b, s.x as int, s.y as int);
                    }
                }
            }

            self.quadrant = self.quadrant % 4 + 1;
            proof {
                assert(*self == s.next_state_spec());
                assert(self.wf());
            }
            Some(point)
        } else if self.x >= 0 {
            // Region 2: the x offset steps down to the axis
            let point: Point = if self.quadrant == 1 {
                (self.center_x + self.x, self.center_y + self.y)
            } else if self.quadrant == 2 {
                (self.center_x - self.x, self.center_y + self.y)
            } else if self.quadrant == 3 {
                (self.center_x - self.x, self.center_y - self.y)
            } else {
                (self.center_x + self.x, self.center_y - self.y)
            };

            // Update the variables after each set of quadrants
            if self.quadrant == 4 {
                // Check and update the decision parameter
                if self.d2 < 0 {
                    self.x -= 1;
                    self.y += 1;
                    self.d2 += 4 * self.a * self.a * self.y - 4 * self.b * self.b * self.x + 2
                        * self.b * self.b;
                } else {
                    self.x -= 1;
                    self.d2 += 2 * self.b * self.b - 4 * self.b * self.b * self.x;
                    proof {
                        lemma_d2_step_x(b, s.x as int);
                    }
                }
            }

            self.quadrant = self.quadrant % 4 + 1;
            proof {
                assert(*self == s.next_state_spec());
                assert(self.wf());
            }
            Some(point)
        } else {
            None
        }
    }

    /// Wrap this producer in a [`Steps`] pull adapter.
    pub fn steps(self) -> (r: Steps)
        ensures
            r.inner == self,
    {
        Steps { inner: self }
    }
}

/// A thin pull adapter around a [`MidpointEllipse`]; it adds no semantics of
/// its own and simply forwards each pull.
pub struct Steps {
    pub inner: MidpointEllipse,
}

impl Steps {
    pub fn next(&mut self) -> (r: Option<Point>)
        requires
            old(self).inner.wf(),
        ensures
            final(self).inner.wf(),
            r == old(self).inner.next_point_spec(),
            final(self).inner == old(self).inner.next_state_spec(),
    {
        self.inner.next()
    }
}

/// Four-fold symmetry: from a quadrant-1 state, the next four pulls emit the
/// four quadrant reflections of one offset pair (x, y) about the center —
/// (cx+x, cy+y), (cx-x, cy+y), (cx-x, cy-y), (cx+x, cy-y) — and leave the
/// producer back in quadrant 1.  Points therefore always appear in complete
/// reflection groups: for every emitted point, its counterparts with negated
/// x offset, negated y offset, and both negated are also emitted.
pub proof fn lemma_four_fold_symmetry(s: MidpointEllipse)
    requires
        s.wf(),
        s.quadrant == 1,
        s.active(),
    ensures
        ({
            let s1 = s.next_state_spec();
            let s2 = s1.next_state_spec();
            let s3 = s2.next_state_spec();
            &&& s.next_point_spec() == Some(
                (((s.center_x + s.x) as i64), ((s.center_y + s.y) as i64)),
            )
            &&& s1.next_point_spec() == Some(
                (((s.center_x - s.x) as i64), ((s.center_y + s.y) as i64)),
            )
            &&& s2.next_point_spec() == Some(
                (((s.center_x - s.x) as i64), ((s.center_y - s.y) as i64)),
            )
            &&& s3.next_point_spec() == Some(
                (((s.center_x + s.x) as i64), ((s.center_y - s.y) as i64)),
            )
            &&& s3.next_state_spec().quadrant == 1
        }),
{
    let s1 = s.next_state_spec();
    assert(s1 == MidpointEllipse { quadrant: 2 as u8, ..s });
    let s2 = s1.next_state_spec();
    assert(s2 == MidpointEllipse { quadrant: 3 as u8, ..s });
    let s3 = s2.next_state_spec();
    assert(s3 == MidpointEllipse { quadrant: 4 as u8, ..s });
}

/// Numeric bounds of the per-cycle update terms, derived from the offset
/// bounds.
proof fn lemma_m_num(a: int, b: int, x: int, y: int)
    by (nonlinear_arith)
    requires
        0 <= a <= 4096,
        0 <= b <= 4096,
        0 <= y <= b,
        x <= a,
        x + y >= -1,
    ensures
        0 <= 4 * a * a * (y + 1) <= 300000000000,
        -300000000000 <= 4 * b * b * (x - 1) <= 300000000000,
        0 <= 2 * b * b * (x - 1) * (x - 1) <= 600000000000000,
        0 <= 2 * a * a * y * y <= 600000000000000,
        0 <= 2 * a * a * y <= 300000000000,
        0 <= 2 * a * a * b * b <= 600000000000000,
{
}

/// While `d2` is negative the y offset has not yet reached the radius.
proof fn lemma_region1_y_room(a: int, b: int, x: int, y: int, d2: int, h: int)
    by (nonlinear_arith)
    requires
        0 <= h,
        0 <= y <= b,
        d2 == 2 * b * b * (x - 1) * (x - 1) + 2 * a * a * y * y + 2 * a * a * y - 2 * a * a * b * b
            + h,
        d2 < 0,
    ensures
        y + 1 <= b,
{
}

/// Ring identity for the pure y step.
proof fn lemma_d2_step_y(a: int, b: int, x: int, y: int)
    by (nonlinear_arith)
    ensures
        2 * b * b * (x - 1) * (x - 1) + 2 * a * a * (y + 1) * (y + 1) + 2 * a * a * (y + 1) == 2
            * b * b * (x - 1) * (x - 1) + 2 * a * a * y * y + 2 * a * a * y + 4 * a * a * (y + 1),
{
}

/// Ring identity for the diagonal step.
proof fn lemma_d2_step_xy(a: int, b: int, x: int, y: int)
    by (nonlinear_arith)
    ensures
        2 * b * b * ((x - 1) - 1) * ((x - 1) - 1) + 2 * a * a * (y + 1) * (y + 1) + 2 * a * a * (y
            + 1) == 2 * b * b * (x - 1) * (x - 1) + 2 * a * a * y * y + 2 * a * a * y + 4 * a * a
            * (y + 1) - 4 * b * b * (x - 1) + 2 * b * b,
{
}

/// Ring identity for the pure x step.
proof fn lemma_d2_step_x(b: int, x: int)
    by (nonlinear_arith)
    ensures
        2 * b * b * ((x - 1) - 1) * ((x - 1) - 1) == 2 * b * b * (x - 1) * (x - 1) + 2 * b * b - 4
            * b * b * (x - 1),
{
}

/// Bounds on the products formed from two radii, small enough for `i64`.
proof fn lemma_radius_products(a: int, b: int)
    by (nonlinear_arith)
    requires
        0 <= a <= 4096,
        0 <= b <= 4096,
    ensures
        0 <= a * a <= 16777216,
        0 <= b * b <= 16777216,
        0 <= 2 * a * a <= 33554432,
        0 <= 2 * b * b <= 33554432,
        0 <= 4 * a * a <= 67108864,
        0 <= 4 * b * b <= 67108864,
        0 <= 2 * a * b <= 33554432,
        0 <= 4 * a * b <= 67108864,
        0 <= 2 * a * b * b <= 137438953472,
        0 <= 4 * a * b * b <= 274877906944,
        0 <= 2 * a * a * b * b <= 600000000000000,
        0 <= (a * a) / 2 <= 8388608,
        0 <= (b * b) / 2 <= 8388608,
{
}

} // verus!
