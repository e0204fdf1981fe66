//! Ellipse/circle outline by the stopping-bound formulation of Bresenham's
//! ellipse algorithm.
//!
//! The producer walks one quadrant of the outline incrementally and emits
//! each computed offset four times, reflected into the four quadrants; the
//! shared state advances once per full quadrant cycle.  Two geometric regions
//! are traversed: while the tangent slope is shallow the y offset grows one
//! pixel per cycle (region 1), afterwards the roles of the axes swap
//! (region 2).  All decisions use the accumulated stopping bounds `end_x` and
//! `end_y` and the error terms; no curve evaluation is done per pixel.

use vstd::prelude::*;
use crate::Point;

verus! {

/// Largest radius the producer accepts; keeps every decision variable well
/// inside `i64`.
pub const MAX_RADIUS: i64 = 4096;

/// Largest center coordinate magnitude the producer accepts.
pub const MAX_CENTER: i64 = 1000000000;

/// An implementation of Bresenham's ellipse algorithm.
///
/// Each pull returns a point for the first quadrant, then the second, third,
/// fourth, and then back to the first.
pub struct BresenhamEllipse {
    pub x: i64,
    pub y: i64,
    pub center_x: i64,
    pub center_y: i64,
    pub radius_x: i64,
    pub radius_y: i64,
    pub delta_x: i64,
    pub delta_y: i64,
    pub error: i64,
    pub quadrant: u8,
    pub radius_x_squared_doubled: i64,
    pub radius_y_squared_doubled: i64,
    pub end_x: i64,
    pub end_y: i64,
    pub first_region: bool,
}

impl BresenhamEllipse {
    /// Internal invariant.  Every derived field is pinned to a closed form in
    /// the current offsets (x, y), and the offsets themselves stay within
    /// bounds that keep all arithmetic inside `i64`.
    pub open spec fn wf(self) -> bool {
        let rx = self.radius_x as int;
        let ry = self.radius_y as int;
        &&& 0 <= rx <= MAX_RADIUS
        &&& 0 <= ry <= MAX_RADIUS
        &&& rx + ry >= 1
        &&& -MAX_CENTER <= self.center_x <= MAX_CENTER
        &&& -MAX_CENTER <= self.center_y <= MAX_CENTER
        &&& 1 <= self.quadrant <= 4
        &&& self.radius_x_squared_doubled == 2 * rx * rx
        &&& self.radius_y_squared_doubled == 2 * ry * ry
        &&& self.end_x == 2 * ry * ry * self.x
        &&& self.end_y == 2 * rx * rx * self.y
        &&& self.error == ry * ry * self.x * self.x + rx * rx * self.y * self.y - rx * rx * ry
            * ry
        &&& (self.first_region ==> {
            &&& self.delta_x == ry * ry * (1 - 2 * self.x)
            &&& self.delta_y == rx * rx * (2 * self.y + 1)
            &&& -1 <= self.x <= rx
            &&& 0 <= self.y
            &&& (self.x < rx ==> self.y >= 1)
            &&& (rx >= 1 ==> rx * self.y <= ry * ry + rx)
            &&& (rx == 0 ==> self.y <= 1 && (self.y == 1 ==> self.x == -1))
        })
        &&& (!self.first_region ==> {
            &&& self.delta_x == ry * ry * (2 * self.x + 1)
            &&& self.delta_y == rx * rx * (1 - 2 * self.y)
            &&& 0 <= self.x
            &&& -1 <= self.y <= ry
            &&& (ry >= 1 ==> ry * self.x <= rx * rx + ry)
            &&& (rx == 0 ==> (self.x == 0 ==> self.y == ry))
            &&& (ry == 0 ==> self.x <= 1 && (self.x == 1 ==> self.y == -1))
        })
    }

    /// The producer still has points to hand out.
    pub open spec fn active(self) -> bool {
        (self.first_region && self.end_x >= self.end_y) || self.end_x <= self.end_y
    }

    /// The state after the one-time switch into region 2, if this pull
    /// performs it.
    pub open spec fn region2_reset(self) -> Self {
        let rx = self.radius_x as int;
        let ry = self.radius_y as int;
        BresenhamEllipse {
            first_region: false,
            x: 0,
            y: self.radius_y,
            delta_x: (ry * ry) as i64,
            delta_y: (rx * rx * (1 - 2 * ry)) as i64,
            error: 0,
            end_x: 0,
            end_y: (2 * rx * rx * ry) as i64,
            ..self
        }
    }

    /// The state whose offsets this pull emits: unchanged in region 1, reset
    /// once on first entering region 2.
    pub open spec fn normalized(self) -> Self {
        if self.first_region && self.end_x < self.end_y {
            self.region2_reset()
        } else {
            self
        }
    }

    /// The current offsets reflected into the current quadrant about the
    /// center.
    pub open spec fn emitted(self) -> Point {
        let px = if self.quadrant == 1 || self.quadrant == 4 {
            self.center_x + self.x
        } else {
            self.center_x - self.x
        };
        let py = if self.quadrant == 1 || self.quadrant == 2 {
            self.center_y + self.y
        } else {
            self.center_y - self.y
        };
        ((px as i64), (py as i64))
    }

    /// The region-1 state advance performed after emitting quadrant 4.
    pub open spec fn advance_region1(self) -> Self {
        let rx = self.radius_x as int;
        let ry = self.radius_y as int;
        let error1 = self.error + self.delta_y;
        let stepped = BresenhamEllipse {
            y: (self.y + 1) as i64,
            end_y: (self.end_y + 2 * rx * rx) as i64,
            error: error1 as i64,
            delta_y: (self.delta_y + 2 * rx * rx) as i64,
            ..self
        };
        if 2 * error1 + self.delta_x > 0 {
            BresenhamEllipse {
                x: (self.x - 1) as i64,
                end_x: (self.end_x - 2 * ry * ry) as i64,
                error: (error1 + self.delta_x) as i64,
                delta_x: (self.delta_x + 2 * ry * ry) as i64,
                ..stepped
            }
        } else {
            stepped
        }
    }

    /// The region-2 state advance performed after emitting quadrant 4.
    pub open spec fn advance_region2(self) -> Self {
        let rx = self.radius_x as int;
        let ry = self.radius_y as int;
        let error1 = self.error + self.delta_x;
        let stepped = BresenhamEllipse {
            x: (self.x + 1) as i64,
            end_x: (self.end_x + 2 * ry * ry) as i64,
            error: error1 as i64,
            delta_x: (self.delta_x + 2 * ry * ry) as i64,
            ..self
        };
        if 2 * error1 + self.delta_y > 0 {
            BresenhamEllipse {
                y: (self.y - 1) as i64,
                end_y: (self.end_y - 2 * rx * rx) as i64,
                error: (error1 + self.delta_y) as i64,
                delta_y: (self.delta_y + 2 * rx * rx) as i64,
                ..stepped
            }
        } else {
            stepped
        }
    }

    /// One full pull on an active, normalized state: advance the shared state
    /// after quadrant 4, then cycle the quadrant counter.
    pub open spec fn cycle(self) -> Self {
        let advanced = if self.quadrant == 4 {
            if self.first_region {
                self.advance_region1()
            } else {
                self.advance_region2()
            }
        } else {
            self
        };
        BresenhamEllipse { quadrant: (self.quadrant % 4 + 1) as u8, ..advanced }
    }

    /// The point returned by the next pull.
    pub open spec fn next_point_spec(self) -> Option<Point> {
        if self.active() {
            Some(self.normalized().emitted())
        } else {
            None
        }
    }

    /// The state after the next pull.
    pub open spec fn next_state_spec(self) -> Self {
        if self.active() {
            self.normalized().cycle()
        } else {
            self
        }
    }

    /// Create a producer for the axis-aligned ellipse with the given center
    /// and radii, initialized for region 1.
    ///
    /// Negative radii are rejected by precondition, as is the fully
    /// degenerate pair of two zero radii, for which the traversal would never
    /// leave its initial state.
    #[verifier::rlimit(60)]
    pub fn new(center_x: i64, center_y: i64, radius_x: i64, radius_y: i64) -> (r: Self)
        requires
            0 <= radius_x <= MAX_RADIUS,
            0 <= radius_y <= MAX_RADIUS,
            radius_x + radius_y >= 1,
            -MAX_CENTER <= center_x <= MAX_CENTER,
            -MAX_CENTER <= center_y <= MAX_CENTER,
        ensures
            r.wf(),
            r.first_region,
            r.quadrant == 1,
            r.x == radius_x,
            r.y == 0,
            r.center_x == center_x,
            r.center_y == center_y,
            r.radius_x == radius_x,
            r.radius_y == radius_y,
            r.active(),
    {
        proof {
            lemma_radius_products(radius_x as int, radius_y as int);
        }
        // Variables initialized for the first region, where the tangent line
        // slope is greater than -1
        let radius_y_squared_doubled: i64 = 2 * radius_y * radius_y;

        let r = BresenhamEllipse {
            center_x,
            center_y,
            radius_x,
            radius_y,
            x: radius_x,
            y: 0,
            delta_x: radius_y * radius_y * (1 - 2 * radius_x),
            delta_y: radius_x * radius_x,
            error: 0,
            radius_x_squared_doubled: 2 * radius_x * radius_x,
            radius_y_squared_doubled,
            end_x: radius_y_squared_doubled * radius_x,
            end_y: 0,
            quadrant: 1,
            first_region: true,
        };
        proof {
            let rx = radius_x as int;
            let ry = radius_y as int;
            assert(ry * ry * rx * rx + rx * rx * 0 * 0 - rx * rx * ry * ry == 0)
                by (nonlinear_arith);
            assert(2 * ry * ry * rx == (2 * ry * ry) * rx) by (nonlinear_arith);
            assert(rx * rx * (2 * 0 + 1) == rx * rx) by (nonlinear_arith);
            assert(r.wf());
        }
        r
    }

    /// Produce the point of the current quadrant, advancing the shared state
    /// after quadrant 4; `None` once both region conditions fail.
    pub fn next(&mut self) -> (r: Option<Point>)
        requires
            old(self).wf(),
        ensures
            final(self).wf(),
            r == old(self).next_point_spec(),
            *final(self) == old(self).next_state_spec(),
    {
        let ghost s = *self;
        let ghost rx = self.radius_x as int;
        let ghost ry = self.radius_y as int;
        proof {
            lemma_radius_products(rx, ry);
        }
        // First region: tangent line slope greater than -1
        if self.first_region && self.end_x >= self.end_y {
            proof {
                lemma_r1_num(rx, ry, s.x as int, s.y as int);
            }
            let point: Point = if self.quadrant == 1 {
                (self.center_x + self.x, self.center_y + self.y)
            } else if self.quadrant == 2 {
                (self.center_x - self.x, self.center_y + self.y)
            } else if self.quadrant == 3 {
                (self.center_x - self.x, self.center_y - self.y)
            } else {
                (self.center_x + self.x, self.center_y - self.y)
            };

            // Update the variables after each set of quadrants
            if self.quadrant == 4 {
                proof {
                    lemma_r1_entry(rx, ry, s.x as int, s.y as int);
                    lemma_r1_update_y(
                        rx,
                        ry,
                        s.x as int,
                        s.y as int,
                        s.error as int,
                        s.delta_y as int,
                        s.end_y as int,
                    );
                }
                self.y += 1;
                self.end_y += self.radius_x_squared_doubled;
                self.error += self.delta_y;
                self.delta_y += self.radius_x_squared_doubled;

                if 2 * self.error + self.delta_x > 0 {
                    proof {
                        lemma_r1_update_x(
                            rx,
                            ry,
                            s.x as int,
                            s.y + 1,
                            self.error as int,
                            self.delta_x as int,
                            self.end_x as int,
                        );
                    }
                    self.x -= 1;
                    self.end_x -= self.radius_y_squared_doubled;
                    self.error += self.delta_x;
                    self.delta_x += self.radius_y_squared_doubled;
                } else {
                    proof {
                        if rx == 0 {
                            lemma_r1_zero_rx(
                                rx,
                                ry,
                                s.x as int,
                                s.y as int,
                                s.error as int,
                                s.delta_y as int,
                                s.delta_x as int,
                            );
                            assert(false);
                        }
                    }
                }
            }

            self.quadrant = self.quadrant % 4 + 1;
            proof {
                assert(s.normalized() == s);
                assert(*self == s.next_state_spec());
                assert(self.wf());
            }
            Some(point)
        } else if self.end_x <= self.end_y {
            // Update variables a single time for the second region, where the
            // tangent line slope is less than -1
            if self.first_region {
                self.first_region = false;

                self.x = 0;
                self.y = self.radius_y;
                self.delta_x = self.radius_y * self.radius_y;
                self.delta_y = self.radius_x * self.radius_x * (1 - 2 * self.radius_y);
                self.error = 0;
                self.end_x = 0;
                self.end_y = self.radius_x_squared_doubled * self.radius_y;
                proof {
                    assert(ry * ry * 0 * 0 + rx * rx * ry * ry - rx * rx * ry * ry == 0)
                        by (nonlinear_arith);
                    assert(ry * ry * (2 * 0 + 1) == ry * ry) by (nonlinear_arith);
                    assert(*self == s.region2_reset());
                    assert(self.wf());
                }
            }
            let ghost n = *self;
            proof {
                assert(n == s.normalized());
                lemma_r2_num(rx, ry, n.x as int, n.y as int);
            }

            // Second region: tangent line slope less than -1
            let point: Point = if self.quadrant == 1 {
                (self.center_x + self.x, self.center_y + self.y)
            } else if self.quadrant == 2 {
                (self.center_x - self.x, self.center_y + self.y)
            } else if self.quadrant == 3 {
                (self.center_x - self.x, self.center_y - self.y)
            } else {
                (self.center_x + self.x, self.center_y - self.y)
            };

            // Update the variables after each set of quadrants
            if self.quadrant == 4 {
                proof {
                    lemma_r2_entry(rx, ry, n.x as int, n.y as int);
                    lemma_r2_update_x(
                        rx,
                        ry,
                        n.x as int,
                        n.y as int,
                        n.error as int,
                        n.delta_x as int,
                        n.end_x as int,
                    );
                }
                self.x += 1;
                self.end_x += self.radius_y_squared_doubled;
                self.error += self.delta_x;
                self.delta_x += self.radius_y_squared_doubled;

                if 2 * self.error + self.delta_y > 0 {
                    proof {
                        lemma_r2_update_y(
                            rx,
                            ry,
                            n.x + 1,
                            n.y as int,
                            self.error as int,
                            self.delta_y as int,
                            self.end_y as int,
                        );
                    }
                    self.y -= 1;
                    self.end_y -= self.radius_x_squared_doubled;
                    self.error += self.delta_y;
                    self.delta_y += self.radius_x_squared_doubled;
                } else {
                    proof {
                        if ry == 0 {
                            lemma_r2_zero_ry(
                                rx,
                                ry,
                                n.x as int,
                                n.y as int,
                                n.error as int,
                                n.delta_x as int,
                                n.delta_y as int,
                            );
                            assert(false);
                        }
                    }
                }
            }

            self.quadrant = self.quadrant % 4 + 1;
            proof {
                assert(*self == s.next_state_spec());
                assert(self.wf());
            }
            Some(point)
        } else {
            None
        }
    }
}

/// Numeric bounds of every region-1 field, derived from the closed forms.
proof fn lemma_r1_num(rx: int, ry: int, x: int, y: int)
    by (nonlinear_arith)
    requires
        0 <= rx <= 4096,
        0 <= ry <= 4096,
        -1 <= x <= rx,
        0 <= y,
        rx >= 1 ==> rx * y <= ry * ry + rx,
        rx == 0 ==> y <= 1,
    ensures
        y <= 16781313,
        -137438953472 <= ry * ry * (1 - 2 * x) <= 137438953472,
        0 <= rx * rx * (2 * y + 1) <= 600000000000000,
        -137438953472 <= 2 * ry * ry * x <= 137438953472,
        0 <= 2 * rx * rx * y <= 600000000000000,
        -1000000000000000 <= ry * ry * x * x + rx * rx * y * y - rx * rx * ry * ry
            <= 1000000000000000,
{
}

/// Numeric bounds of every region-2 field, derived from the closed forms.
proof fn lemma_r2_num(rx: int, ry: int, x: int, y: int)
    by (nonlinear_arith)
    requires
        0 <= rx <= 4096,
        0 <= ry <= 4096,
        0 <= x,
        -1 <= y <= ry,
        ry >= 1 ==> ry * x <= rx * rx + ry,
        ry == 0 ==> x <= 1,
    ensures
        x <= 16781313,
        0 <= ry * ry * (2 * x + 1) <= 600000000000000,
        -137438953472 <= rx * rx * (1 - 2 * y) <= 137438953472,
        0 <= 2 * ry * ry * x <= 600000000000000,
        -137438953472 <= 2 * rx * rx * y <= 137438953472,
        -1000000000000000 <= ry * ry * x * x + rx * rx * y * y - rx * rx * ry * ry
            <= 1000000000000000,
{
}

/// What the region-1 advance condition `end_x >= end_y` forces of the state.
proof fn lemma_r1_entry(rx: int, ry: int, x: int, y: int)
    by (nonlinear_arith)
    requires
        0 <= rx <= 4096,
        0 <= ry <= 4096,
        rx + ry >= 1,
        -1 <= x <= rx,
        0 <= y,
        x < rx ==> y >= 1,
        rx == 0 ==> y <= 1 && (y == 1 ==> x == -1),
        2 * ry * ry * x >= 2 * rx * rx * y,
    ensures
        x >= 0,
        rx >= 1 ==> rx * (y + 1) <= ry * ry + rx,
        rx == 0 ==> (x == 0 && y == 0),
{
}

/// What the region-2 advance condition `end_x <= end_y` forces of the state.
proof fn lemma_r2_entry(rx: int, ry: int, x: int, y: int)
    by (nonlinear_arith)
    requires
        0 <= rx <= 4096,
        0 <= ry <= 4096,
        rx + ry >= 1,
        0 <= x,
        -1 <= y <= ry,
        ry >= 1 ==> ry * x <= rx * rx + ry,
        rx == 0 ==> (x == 0 ==> y == ry),
        ry == 0 ==> x <= 1 && (x == 1 ==> y == -1),
        ry >= 1 ==> x <= 16781313,
        2 * ry * ry * x <= 2 * rx * rx * y,
    ensures
        y >= 0,
        ry >= 1 ==> ry * (x + 1) <= rx * rx + ry,
        rx == 0 ==> (x == 0 && y == ry),
        ry == 0 ==> (x == 0 && y == 0),
{
}

/// Ring identities for the y step of the region-1 advance.
proof fn lemma_r1_update_y(rx: int, ry: int, x: int, y: int, error: int, delta_y: int, end_y: int)
    by (nonlinear_arith)
    requires
        error == ry * ry * x * x + rx * rx * y * y - rx * rx * ry * ry,
        delta_y == rx * rx * (2 * y + 1),
        end_y == 2 * rx * rx * y,
    ensures
        error + delta_y == ry * ry * x * x + rx * rx * (y + 1) * (y + 1) - rx * rx * ry * ry,
        delta_y + 2 * rx * rx == rx * rx * (2 * (y + 1) + 1),
        end_y + 2 * rx * rx == 2 * rx * rx * (y + 1),
{
}

/// Ring identities for the conditional x step of the region-1 advance.
proof fn lemma_r1_update_x(
    rx: int,
    ry: int,
    x: int,
    y1: int,
    error1: int,
    delta_x: int,
    end_x: int,
)
    by (nonlinear_arith)
    requires
        error1 == ry * ry * x * x + rx * rx * y1 * y1 - rx * rx * ry * ry,
        delta_x == ry * ry * (1 - 2 * x),
        end_x == 2 * ry * ry * x,
    ensures
        error1 + delta_x == ry * ry * (x - 1) * (x - 1) + rx * rx * y1 * y1 - rx * rx * ry * ry,
        delta_x + 2 * ry * ry == ry * ry * (1 - 2 * (x - 1)),
        end_x - 2 * ry * ry == 2 * ry * ry * (x - 1),
{
}

/// Ring identities for the x step of the region-2 advance.
proof fn lemma_r2_update_x(rx: int, ry: int, x: int, y: int, error: int, delta_x: int, end_x: int)
    by (nonlinear_arith)
    requires
        error == ry * ry * x * x + rx * rx * y * y - rx * rx * ry * ry,
        delta_x == ry * ry * (2 * x + 1),
        end_x == 2 * ry * ry * x,
    ensures
        error + delta_x == ry * ry * (x + 1) * (x + 1) + rx * rx * y * y - rx * rx * ry * ry,
        delta_x + 2 * ry * ry == ry * ry * (2 * (x + 1) + 1),
        end_x + 2 * ry * ry == 2 * ry * ry * (x + 1),
{
}

/// Ring identities for the conditional y step of the region-2 advance.
proof fn lemma_r2_update_y(
    rx: int,
    ry: int,
    x1: int,
    y: int,
    error1: int,
    delta_y: int,
    end_y: int,
)
    by (nonlinear_arith)
    requires
        error1 == ry * ry * x1 * x1 + rx * rx * y * y - rx * rx * ry * ry,
        delta_y == rx * rx * (1 - 2 * y),
        end_y == 2 * rx * rx * y,
    ensures
        error1 + delta_y == ry * ry * x1 * x1 + rx * rx * (y - 1) * (y - 1) - rx * rx * ry * ry,
        delta_y + 2 * rx * rx == rx * rx * (1 - 2 * (y - 1)),
        end_y - 2 * rx * rx == 2 * rx * rx * (y - 1),
{
}

/// Four-fold symmetry: from a quadrant-1 state, the next four pulls emit the
/// four quadrant reflections of one offset pair (x, y) about the center —
/// (cx+x, cy+y), (cx-x, cy+y), (cx-x, cy-y), (cx+x, cy-y) — and leave the
/// producer back in quadrant 1.  Points therefore always appear in complete
/// reflection groups: for every emitted point, its counterparts with negated
/// x offset, negated y offset, and both negated are also emitted.
pub proof fn lemma_four_fold_symmetry(s: BresenhamEllipse)
    requires
        s.wf(),
        s.quadrant == 1,
        s.active(),
    ensures
        ({
            let n = s.normalized();
            let s1 = s.next_state_spec();
            let s2 = s1.next_state_spec();
            let s3 = s2.next_state_spec();
            &&& s.next_point_spec() == Some(
                (((n.center_x + n.x) as i64), ((n.center_y + n.y) as i64)),
            )
            &&& s1.next_point_spec() == Some(
                (((n.center_x - n.x) as i64), ((n.center_y + n.y) as i64)),
            )
            &&& s2.next_point_spec() == Some(
                (((n.center_x - n.x) as i64), ((n.center_y - n.y) as i64)),
            )
            &&& s3.next_point_spec() == Some(
                (((n.center_x + n.x) as i64), ((n.center_y - n.y) as i64)),
            )
            &&& s3.next_state_spec().quadrant == 1
        }),
{
    let rx = s.radius_x as int;
    let ry = s.radius_y as int;
    lemma_radius_products(rx, ry);
    let n = s.normalized();
    assert(n.active());
    let s1 = s.next_state_spec();
    assert(s1 == BresenhamEllipse { quadrant: 2 as u8, ..n });
    assert(s1.active() && s1.normalized() == s1);
    let s2 = s1.next_state_spec();
    assert(s2 == BresenhamEllipse { quadrant: 3 as u8, ..n });
    assert(s2.active() && s2.normalized() == s2);
    let s3 = s2.next_state_spec();
    assert(s3 == BresenhamEllipse { quadrant: 4 as u8, ..n });
    assert(s3.active() && s3.normalized() == s3);
}

/// With a zero x radius the one region-1 advance always steps x as well.
proof fn lemma_r1_zero_rx(
    rx: int,
    ry: int,
    x: int,
    y: int,
    error: int,
    delta_y: int,
    delta_x: int,
)
    by (nonlinear_arith)
    requires
        rx == 0,
        1 <= ry,
        x == 0,
        y == 0,
        error == ry * ry * x * x + rx * rx * y * y - rx * rx * ry * ry,
        delta_y == rx * rx * (2 * y + 1),
        delta_x == ry * ry * (1 - 2 * x),
    ensures
        2 * (error + delta_y) + delta_x > 0,
{
}

/// With a zero y radius the one region-2 advance always steps y as well.
proof fn lemma_r2_zero_ry(
    rx: int,
    ry: int,
    x: int,
    y: int,
    error: int,
    delta_x: int,
    delta_y: int,
)
    by (nonlinear_arith)
    requires
        ry == 0,
        1 <= rx,
        x == 0,
        y == 0,
        error == ry * ry * x * x + rx * rx * y * y - rx * rx * ry * ry,
        delta_x == ry * ry * (2 * x + 1),
        delta_y == rx * rx * (1 - 2 * y),
    ensures
        2 * (error + delta_x) + delta_y > 0,
{
}

/// Bounds on the products formed from two radii, small enough for `i64`.
proof fn lemma_radius_products(rx: int, ry: int)
    by (nonlinear_arith)
    requires
        0 <= rx <= 4096,
        0 <= ry <= 4096,
    ensures
        0 <= rx * rx <= 16777216,
        0 <= ry * ry <= 16777216,
        0 <= 2 * rx * rx <= 33554432,
        0 <= 2 * ry * ry <= 33554432,
        0 <= 2 * ry * ry * rx <= 137438953472,
        0 <= 2 * rx * rx * ry <= 137438953472,
        -137438953472 <= ry * ry * (1 - 2 * rx) <= 16777216,
        -137438953472 <= rx * rx * (1 - 2 * ry) <= 16777216,
{
}

} // verus!
