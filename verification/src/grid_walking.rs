//! Orthogonal grid traversal between two lattice points.
//!
//! [`WalkGrid`] takes one orthogonal step per pull, advancing the axis whose
//! fractional progress is smaller and resolving exact ties in favour of y,
//! which makes it directionally asymmetric.  [`Supercover`] resolves an exact
//! tie with a diagonal step instead, which makes it symmetric under endpoint
//! reversal.  The fractional comparison (0.5 + ix) / nx < (0.5 + iy) / ny is
//! evaluated exactly by cross-multiplication, so the walk is deterministic
//! and needs no division.

use vstd::prelude::*;
use crate::Point;
use crate::grid_path::frac_cmp;
use crate::grid_path::lemma_super_index_path_props;
use crate::grid_path::lemma_walk_index_path_len;
use crate::grid_path::lemma_walk_index_path_props;
use crate::grid_path::full_super;
use crate::grid_path::lemma_super_path_mirror;
use crate::grid_path::lemma_tie_free_paths_equal;
use crate::grid_path::mirror_path;
use crate::grid_path::super_index_path;
use crate::grid_path::tie_free;
use crate::grid_path::walk_index_path;

verus! {

/// Largest coordinate magnitude the walkers accept; keeps every comparison
/// and step inside `i64`.
pub const COORD_LIMIT: i64 = 536870912;

/// Both endpoint coordinates are within [`COORD_LIMIT`].
pub open spec fn coords_ok(p: Point) -> bool {
    -COORD_LIMIT <= p.0 <= COORD_LIMIT && -COORD_LIMIT <= p.1 <= COORD_LIMIT
}

/// Absolute coordinate differences of the two endpoints.
pub open spec fn deltas(start: Point, end: Point) -> (int, int) {
    (abs_int(end.0 - start.0), abs_int(end.1 - start.1))
}

/// Absolute value of a coordinate difference.
pub open spec fn abs_int(d: int) -> int {
    if d < 0 {
        -d
    } else {
        d
    }
}

/// Direction of a step along one axis: 1 for a positive difference, else -1.
pub open spec fn sign_int(d: int) -> int {
    if d > 0 {
        1
    } else {
        -1
    }
}

/// The full point sequence of the greedy walk from `start` to `end`:
/// `start` itself, then one point per orthogonal step.
pub open spec fn walk_points(start: Point, end: Point) -> Seq<Point> {
    let (nx, ny) = deltas(start, end);
    let sx = sign_int(end.0 - start.0);
    let sy = sign_int(end.1 - start.1);
    seq![start]
        + walk_index_path(0, 0, nx, ny).map_values(
        |p: (int, int)| (((start.0 + sx * p.0) as i64, (start.1 + sy * p.1) as i64)),
    )
}

/// The full point sequence of the supercover walk from `start` to `end`.
pub open spec fn super_points(start: Point, end: Point) -> Seq<Point> {
    let (nx, ny) = deltas(start, end);
    let sx = sign_int(end.0 - start.0);
    let sy = sign_int(end.1 - start.1);
    seq![start]
        + super_index_path(0, 0, nx, ny).map_values(
        |p: (int, int)| (((start.0 + sx * p.0) as i64, (start.1 + sy * p.1) as i64)),
    )
}

/// Walk along a grid, taking only orthogonal steps.
///
/// The first pull returns the start point; each later pull advances the axis
/// whose fraction (0.5 + i) / n is smaller, the y axis on a tie.  Swapping
/// `start` and `end` does not in general reverse the walk; see
/// [`sorted_walk_grid`] for a symmetric variant.
pub struct WalkGrid {
    pub x: i64,
    pub y: i64,
    pub ix: i64,
    pub iy: i64,
    pub sign_x: i64,
    pub sign_y: i64,
    pub nx: i64,
    pub ny: i64,
    pub at_start: bool,
}

impl WalkGrid {
    /// Internal invariant: progress counters within range, signs are units,
    /// and the current position cannot drift out of `i64` before the walk
    /// ends.
    pub open spec fn wf(self) -> bool {
        &&& 0 <= self.ix <= self.nx
        &&& 0 <= self.iy <= self.ny
        &&& self.nx <= 2 * COORD_LIMIT
        &&& self.ny <= 2 * COORD_LIMIT
        &&& (self.sign_x == 1 || self.sign_x == -1)
        &&& (self.sign_y == 1 || self.sign_y == -1)
        &&& -3 * COORD_LIMIT + (self.nx - self.ix) <= self.x
        &&& self.x <= 3 * COORD_LIMIT - (self.nx - self.ix)
        &&& -3 * COORD_LIMIT + (self.ny - self.iy) <= self.y
        &&& self.y <= 3 * COORD_LIMIT - (self.ny - self.iy)
    }

    /// The points this walker has yet to produce.
    pub open spec fn upcoming(self) -> Seq<Point> {
        (if self.at_start {
            seq![(self.x, self.y)]
        } else {
            Seq::empty()
        }) + walk_index_path(self.ix as int, self.iy as int, self.nx as int, self.ny as int)
            .map_values(
            |p: (int, int)|
                (
                    ((self.x + self.sign_x * (p.0 - self.ix)) as i64),
                    ((self.y + self.sign_y * (p.1 - self.iy)) as i64),
                ),
        )
    }

    /// The cross-multiplied fraction comparison: true when the x axis lags
    /// behind, i.e. (0.5 + ix) / nx < (0.5 + iy) / ny as exact rationals.
    pub open spec fn frac_x_lags(self) -> bool {
        (2 * self.ix + 1) * self.ny < (2 * self.iy + 1) * self.nx
    }

    /// The state after the next pull: the first pull clears `at_start`
    /// without moving; each later pull steps the lagging axis (y on a tie)
    /// until both progress counters are exhausted.
    pub open spec fn next_state_spec(self) -> Self {
        if self.at_start {
            WalkGrid { at_start: false, ..self }
        } else if self.ix < self.nx || self.iy < self.ny {
            if self.frac_x_lags() {
                WalkGrid { x: (self.x + self.sign_x) as i64, ix: (self.ix + 1) as i64, ..self }
            } else {
                WalkGrid { y: (self.y + self.sign_y) as i64, iy: (self.iy + 1) as i64, ..self }
            }
        } else {
            self
        }
    }

    /// The point returned by the next pull: the position after the step, or
    /// the start itself on the first pull.
    pub open spec fn next_point_spec(self) -> Option<Point> {
        if self.at_start || self.ix < self.nx || self.iy < self.ny {
            let t = self.next_state_spec();
            Some((t.x, t.y))
        } else {
            None
        }
    }

    pub fn new(start: Point, end: Point) -> (r: WalkGrid)
        requires
            coords_ok(start),
            coords_ok(end),
        ensures
            r.wf(),
            r.upcoming() == walk_points(start, end),
            r.x == start.0 && r.y == start.1,
            r.ix == 0 && r.iy == 0,
            r.sign_x == sign_int(end.0 - start.0),
            r.sign_y == sign_int(end.1 - start.1),
            r.nx == deltas(start, end).0,
            r.ny == deltas(start, end).1,
            r.at_start,
    {
        let dx = end.0 - start.0;
        let dy = end.1 - start.1;
        let r = WalkGrid {
            x: start.0,
            y: start.1,
            ix: 0,
            iy: 0,
            sign_x: if dx > 0 { 1 } else { -1 },
            sign_y: if dy > 0 { 1 } else { -1 },
            nx: if dx < 0 { -dx } else { dx },
            ny: if dy < 0 { -dy } else { dy },
            at_start: true,
        };
        proof {
            assert(r.upcoming() =~= walk_points(start, end));
        }
        r
    }

    /// Produce the next point, or `None` once the walk is exhausted.
    pub fn next(&mut self) -> (r: Option<Point>)
        requires
            old(self).wf(),
        ensures
            final(self).wf(),
            r == old(self).next_point_spec(),
            *final(self) == old(self).next_state_spec(),
            old(self).upcoming().len() == 0 ==> r is None && *final(self) == *old(self),
            old(self).upcoming().len() > 0 ==> r == Some(old(self).upcoming()[0])
                && final(self).upcoming() == old(self).upcoming().drop_first(),
    {
        proof {
            lemma_walk_index_path_len(
                self.ix as int,
                self.iy as int,
                self.nx as int,
                self.ny as int,
            );
        }
        if self.at_start {
            self.at_start = false;
            proof {
                assert(*self == old(self).next_state_spec());
                assert(self.upcoming() =~= old(self).upcoming().drop_first());
            }
            Some((self.x, self.y))
        } else if self.ix < self.nx || self.iy < self.ny {
            let ghost s = *self;
            let ghost path = walk_index_path(s.ix as int, s.iy as int, s.nx as int, s.ny as int);
            proof {
                lemma_frac_products_fit(s.ix as int, s.iy as int, s.nx as int, s.ny as int);
            }
            if (2 * self.ix + 1) * self.ny < (2 * self.iy + 1) * self.nx {
                proof {
                    if s.ix == s.nx {
                        assert(!((2 * s.ix + 1) * s.ny < (2 * s.iy + 1) * s.nx))
                            by (nonlinear_arith)
                            requires
                                s.ix == s.nx,
                                0 <= s.iy < s.ny,
                                0 <= s.nx,
                        ;
                    }
                }
                self.x += self.sign_x;
                self.ix += 1;
            } else {
                proof {
                    if s.iy == s.ny {
                        assert((2 * s.ix + 1) * s.ny < (2 * s.iy + 1) * s.nx)
                            by (nonlinear_arith)
                            requires
                                s.iy == s.ny,
                                0 <= s.ix < s.nx,
                                0 <= s.ny,
                        ;
                    }
                }
                self.y += self.sign_y;
                self.iy += 1;
            }
            proof {
                let t = *self;
                assert(t == s.next_state_spec());
                let rest = walk_index_path(t.ix as int, t.iy as int, t.nx as int, t.ny as int);
                assert(path =~= seq![(t.ix as int, t.iy as int)] + rest);
                assert(path.drop_first() =~= rest);
                lemma_step_common(s, t);
            }
            Some((self.x, self.y))
        } else {
            None
        }
    }
}

/// Like [`WalkGrid`] but takes a diagonal step when the line passes exactly
/// over a corner, so the traversal touches every cell the ideal line crosses
/// and is symmetric under swapping `start` and `end`.
pub struct Supercover {
    pub x: i64,
    pub y: i64,
    pub ix: i64,
    pub iy: i64,
    pub sign_x: i64,
    pub sign_y: i64,
    pub nx: i64,
    pub ny: i64,
    pub at_start: bool,
}

impl Supercover {
    /// Internal invariant, identical to the one of [`WalkGrid`].
    pub open spec fn wf(self) -> bool {
        &&& 0 <= self.ix <= self.nx
        &&& 0 <= self.iy <= self.ny
        &&& self.nx <= 2 * COORD_LIMIT
        &&& self.ny <= 2 * COORD_LIMIT
        &&& (self.sign_x == 1 || self.sign_x == -1)
        &&& (self.sign_y == 1 || self.sign_y == -1)
        &&& -3 * COORD_LIMIT + (self.nx - self.ix) <= self.x
        &&& self.x <= 3 * COORD_LIMIT - (self.nx - self.ix)
        &&& -3 * COORD_LIMIT + (self.ny - self.iy) <= self.y
        &&& self.y <= 3 * COORD_LIMIT - (self.ny - self.iy)
    }

    /// The points this walker has yet to produce.
    pub open spec fn upcoming(self) -> Seq<Point> {
        (if self.at_start {
            seq![(self.x, self.y)]
        } else {
            Seq::empty()
        }) + super_index_path(self.ix as int, self.iy as int, self.nx as int, self.ny as int)
            .map_values(
            |p: (int, int)|
                (
                    ((self.x + self.sign_x * (p.0 - self.ix)) as i64),
                    ((self.y + self.sign_y * (p.1 - self.iy)) as i64),
                ),
        )
    }

    /// Sign of the fractional comparison
    /// (0.5 + ix) / nx - (0.5 + iy) / ny, by cross-multiplication.
    pub open spec fn frac_sign(self) -> int {
        frac_cmp(self.ix as int, self.iy as int, self.nx as int, self.ny as int)
    }

    /// The state after the next pull: the first pull clears `at_start`
    /// without moving; each later pull steps both axes on an exact tie, else
    /// the lagging axis, until both progress counters are exhausted.
    pub open spec fn next_state_spec(self) -> Self {
        if self.at_start {
            Supercover { at_start: false, ..self }
        } else if self.ix < self.nx || self.iy < self.ny {
            if self.frac_sign() == 0 {
                Supercover {
                    x: (self.x + self.sign_x) as i64,
                    y: (self.y + self.sign_y) as i64,
                    ix: (self.ix + 1) as i64,
                    iy: (self.iy + 1) as i64,
                    ..self
                }
            } else if self.frac_sign() < 0 {
                Supercover { x: (self.x + self.sign_x) as i64, ix: (self.ix + 1) as i64, ..self }
            } else {
                Supercover { y: (self.y + self.sign_y) as i64, iy: (self.iy + 1) as i64, ..self }
            }
        } else {
            self
        }
    }

    /// The point returned by the next pull: the position after the step, or
    /// the start itself on the first pull.
    pub open spec fn next_point_spec(self) -> Option<Point> {
        if self.at_start || self.ix < self.nx || self.iy < self.ny {
            let t = self.next_state_spec();
            Some((t.x, t.y))
        } else {
            None
        }
    }

    pub fn new(start: Point, end: Point) -> (r: Supercover)
        requires
            coords_ok(start),
            coords_ok(end),
        ensures
            r.wf(),
            r.upcoming() == super_points(start, end),
            r.x == start.0 && r.y == start.1,
            r.ix == 0 && r.iy == 0,
            r.sign_x == sign_int(end.0 - start.0),
            r.sign_y == sign_int(end.1 - start.1),
            r.nx == deltas(start, end).0,
            r.ny == deltas(start, end).1,
            r.at_start,
    {
        let dx = end.0 - start.0;
        let dy = end.1 - start.1;
        let r = Supercover {
            x: start.0,
            y: start.1,
            ix: 0,
            iy: 0,
            sign_x: if dx > 0 { 1 } else { -1 },
            sign_y: if dy > 0 { 1 } else { -1 },
            nx: if dx < 0 { -dx } else { dx },
            ny: if dy < 0 { -dy } else { dy },
            at_start: true,
        };
        proof {
            assert(r.upcoming() =~= super_points(start, end));
        }
        r
    }

    /// Produce the next point, or `None` once the walk is exhausted.
    pub fn next(&mut self) -> (r: Option<Point>)
        requires
            old(self).wf(),
        ensures
            final(self).wf(),
            r == old(self).next_point_spec(),
            *final(self) == old(self).next_state_spec(),
            old(self).upcoming().len() == 0 ==> r is None && *final(self) == *old(self),
            old(self).upcoming().len() > 0 ==> r == Some(old(self).upcoming()[0])
                && final(self).upcoming() == old(self).upcoming().drop_first(),
    {
        if self.at_start {
            self.at_start = false;
            proof {
                assert(*self == old(self).next_state_spec());
                assert(self.upcoming() =~= old(self).upcoming().drop_first());
            }
            Some((self.x, self.y))
        } else if self.ix < self.nx || self.iy < self.ny {
            let ghost s = *self;
            let ghost path = super_index_path(s.ix as int, s.iy as int, s.nx as int, s.ny as int);
            proof {
                lemma_frac_products_fit(s.ix as int, s.iy as int, s.nx as int, s.ny as int);
                if s.ix == s.nx {
                    assert((2 * s.ix + 1) * s.ny > (2 * s.iy + 1) * s.nx)
                        by (nonlinear_arith)
                        requires
                            s.ix == s.nx,
                            0 <= s.iy < s.ny,
                            0 <= s.nx,
                    ;
                }
                if s.iy == s.ny {
                    assert((2 * s.ix + 1) * s.ny < (2 * s.iy + 1) * s.nx)
                        by (nonlinear_arith)
                        requires
                            s.iy == s.ny,
                            0 <= s.ix < s.nx,
                            0 <= s.ny,
                    ;
                }
            }
            let comparison: i64 = (2 * self.ix + 1) * self.ny - (2 * self.iy + 1) * self.nx;
            // An exact fractional tie jumps diagonally
            if comparison == 0 {
                self.x += self.sign_x;
                self.y += self.sign_y;
                self.ix += 1;
                self.iy += 1;
            } else if comparison < 0 {
                self.x += self.sign_x;
                self.ix += 1;
            } else {
                self.y += self.sign_y;
                self.iy += 1;
            }
            proof {
                let t = *self;
                assert(t == s.next_state_spec());
                let rest = super_index_path(t.ix as int, t.iy as int, t.nx as int, t.ny as int);
                assert(path =~= seq![(t.ix as int, t.iy as int)] + rest);
                assert(path.drop_first() =~= rest);
                lemma_super_step_common(s, t);
            }
            Some((self.x, self.y))
        } else {
            None
        }
    }
}

/// The step taken by `Supercover::next` matches one unfolding of the spec
/// path.
proof fn lemma_super_step_common(s: Supercover, t: Supercover)
    requires
        s.wf(),
        !s.at_start,
        !t.at_start,
        s.ix < s.nx || s.iy < s.ny,
        t.nx == s.nx && t.ny == s.ny && t.sign_x == s.sign_x && t.sign_y == s.sign_y,
        super_index_path(s.ix as int, s.iy as int, s.nx as int, s.ny as int)[0] == (
            t.ix as int,
            t.iy as int,
        ),
        super_index_path(s.ix as int, s.iy as int, s.nx as int, s.ny as int).drop_first()
            == super_index_path(t.ix as int, t.iy as int, t.nx as int, t.ny as int),
        t.x == s.x + s.sign_x * (t.ix - s.ix),
        t.y == s.y + s.sign_y * (t.iy - s.iy),
    ensures
        s.upcoming().len() > 0,
        (t.x, t.y) == s.upcoming()[0],
        t.upcoming() == s.upcoming().drop_first(),
{
    let path = super_index_path(s.ix as int, s.iy as int, s.nx as int, s.ny as int);
    let rest = super_index_path(t.ix as int, t.iy as int, t.nx as int, t.ny as int);
    lemma_super_index_path_props(s.ix as int, s.iy as int, s.nx as int, s.ny as int);
    assert(t.upcoming() =~= s.upcoming().drop_first()) by {
        assert forall|k: int| 0 <= k < rest.len() implies t.upcoming()[k] == s.upcoming()[k + 1] by {
            let p = rest[k];
            assert(path[k + 1] == p);
            assert(s.x + s.sign_x * (p.0 - s.ix) == t.x + t.sign_x * (p.0 - t.ix))
                by (nonlinear_arith)
                requires
                    t.x == s.x + s.sign_x * (t.ix - s.ix),
                    t.sign_x == s.sign_x,
            ;
            assert(s.y + s.sign_y * (p.1 - s.iy) == t.y + t.sign_y * (p.1 - t.iy))
                by (nonlinear_arith)
                requires
                    t.y == s.y + s.sign_y * (t.iy - s.iy),
                    t.sign_y == s.sign_y,
            ;
        }
    }
}

/// The cross-multiplied fraction comparison stays well inside `i64`.
proof fn lemma_frac_products_fit(ix: int, iy: int, nx: int, ny: int)
    by (nonlinear_arith)
    requires
        0 <= ix <= 1073741824,
        0 <= iy <= 1073741824,
        0 <= nx <= 1073741824,
        0 <= ny <= 1073741824,
    ensures
        0 <= (2 * ix + 1) * ny <= 0x2000_0001_0000_0000,
        0 <= (2 * iy + 1) * nx <= 0x2000_0001_0000_0000,
{
}

/// The step taken by `WalkGrid::next` matches one unfolding of the spec path.
proof fn lemma_step_common(s: WalkGrid, t: WalkGrid)
    requires
        s.wf(),
        !s.at_start,
        !t.at_start,
        s.ix < s.nx || s.iy < s.ny,
        t.nx == s.nx && t.ny == s.ny && t.sign_x == s.sign_x && t.sign_y == s.sign_y,
        walk_index_path(s.ix as int, s.iy as int, s.nx as int, s.ny as int)[0] == (
            t.ix as int,
            t.iy as int,
        ),
        walk_index_path(s.ix as int, s.iy as int, s.nx as int, s.ny as int).drop_first()
            == walk_index_path(t.ix as int, t.iy as int, t.nx as int, t.ny as int),
        t.x == s.x + s.sign_x * (t.ix - s.ix),
        t.y == s.y + s.sign_y * (t.iy - s.iy),
    ensures
        s.upcoming().len() > 0,
        (t.x, t.y) == s.upcoming()[0],
        t.upcoming() == s.upcoming().drop_first(),
{
    let path = walk_index_path(s.ix as int, s.iy as int, s.nx as int, s.ny as int);
    let rest = walk_index_path(t.ix as int, t.iy as int, t.nx as int, t.ny as int);
    lemma_walk_index_path_len(s.ix as int, s.iy as int, s.nx as int, s.ny as int);
    assert(t.upcoming() =~= s.upcoming().drop_first()) by {
        assert forall|k: int| 0 <= k < rest.len() implies t.upcoming()[k] == s.upcoming()[k + 1] by {
            let p = rest[k];
            assert(path[k + 1] == p);
            assert(s.x + s.sign_x * (p.0 - s.ix) == t.x + t.sign_x * (p.0 - t.ix))
                by (nonlinear_arith)
                requires
                    t.x == s.x + s.sign_x * (t.ix - s.ix),
                    t.sign_x == s.sign_x,
            ;
            assert(s.y + s.sign_y * (p.1 - s.iy) == t.y + t.sign_y * (p.1 - t.iy))
                by (nonlinear_arith)
                requires
                    t.y == s.y + s.sign_y * (t.iy - s.iy),
                    t.sign_y == s.sign_y,
            ;
        }
    }
}

/// The product of a direction's sign and magnitude is the signed difference
/// itself.
proof fn lemma_sign_abs(d: int)
    ensures
        sign_int(d) * abs_int(d) == d,
{
    if d > 0 {
        assert(sign_int(d) * abs_int(d) == 1 * d);
    } else if d < 0 {
        assert(sign_int(d) * abs_int(d) == (-1) * (-d));
    } else {
        assert(sign_int(d) * abs_int(d) == (-1) * 0);
    }
}

/// Collect the points of a [`WalkGrid`] walk into a [`Vec`]: the start point,
/// then one point per orthogonal step, ending at `end` after exactly
/// |dx| + |dy| steps.
pub fn walk_grid(start: Point, end: Point) -> (r: Vec<Point>)
    requires
        coords_ok(start),
        coords_ok(end),
    ensures
        r@ == walk_points(start, end),
        r@.len() == deltas(start, end).0 + deltas(start, end).1 + 1,
        r@[0] == start,
        r@.last() == end,
{
    let mut walker = WalkGrid::new(start, end);
    let mut out: Vec<Point> = Vec::new();
    loop
        invariant
            walker.wf(),
            out@ + walker.upcoming() == walk_points(start, end),
        ensures
            out@ == walk_points(start, end),
        decreases walker.upcoming().len(),
    {
        let ghost before = out@;
        match walker.next() {
            Some(p) => {
                out.push(p);
                proof {
                    assert(out@ + walker.upcoming() =~= walk_points(start, end));
                }
            },
            None => {
                proof {
                    assert(out@ =~= walk_points(start, end));
                }
                break ;
            },
        }
    }
    proof {
        let (nx, ny) = deltas(start, end);
        lemma_walk_index_path_len(0, 0, nx, ny);
        lemma_walk_index_path_props(0, 0, nx, ny);
        lemma_sign_abs(end.0 - start.0);
        lemma_sign_abs(end.1 - start.1);
        if nx > 0 || ny > 0 {
            let path = walk_index_path(0, 0, nx, ny);
            assert(out@.last() == ((start.0 + sign_int(end.0 - start.0) * path.last().0) as i64, (
            start.1 + sign_int(end.1 - start.1) * path.last().1) as i64));
        }
    }
    out
}

/// The point sequence of [`sorted_walk_grid`]: the greedy walk taken from the
/// endpoint with the smaller y, reversed when the endpoints were swapped.
pub open spec fn sorted_walk_points(start: Point, end: Point) -> Seq<Point> {
    if start.1 > end.1 {
        walk_points(end, start).reverse()
    } else {
        walk_points(start, end)
    }
}

/// Reorder two endpoints so that y is non-decreasing, recording whether a
/// swap occurred.
pub fn sort_y(a: Point, b: Point) -> (r: (Point, Point, bool))
    ensures
        r == (if a.1 > b.1 {
            (b, a, true)
        } else {
            (a, b, false)
        }),
{
    if a.1 > b.1 {
        (b, a, true)
    } else {
        (a, b, false)
    }
}

/// A new vector holding the same points in reverse order.
pub fn reverse(points: &Vec<Point>) -> (r: Vec<Point>)
    ensures
        r@ == points@.reverse(),
{
    let n = points.len();
    let mut out: Vec<Point> = Vec::new();
    let mut i: usize = 0;
    while i < n
        invariant
            n == points@.len(),
            0 <= i <= n,
            out@.len() == i,
            forall|k: int| 0 <= k < i ==> out@[k] == points@[n - 1 - k],
        decreases n - i,
    {
        out.push(points[n - 1 - i]);
        i += 1;
    }
    proof {
        assert(out@ =~= points@.reverse());
    }
    out
}

/// Like [`walk_grid`] but reorders the endpoints by ascending y first and
/// reverses the result when they were swapped, so that the walk is symmetric
/// under endpoint reversal.
pub fn sorted_walk_grid(start: Point, end: Point) -> (r: Vec<Point>)
    requires
        coords_ok(start),
        coords_ok(end),
    ensures
        r@ == sorted_walk_points(start, end),
{
    let (a, b, reordered) = sort_y(start, end);
    let points = walk_grid(a, b);
    if !reordered {
        points
    } else {
        reverse(&points)
    }
}

/// Collect the points of a [`Supercover`] walk into a [`Vec`]: the start
/// point, then one point per orthogonal or diagonal step, ending at `end`.
pub fn supercover(start: Point, end: Point) -> (r: Vec<Point>)
    requires
        coords_ok(start),
        coords_ok(end),
    ensures
        r@ == super_points(start, end),
        r@.len() > 0,
        r@[0] == start,
        r@.last() == end,
{
    let mut walker = Supercover::new(start, end);
    let mut out: Vec<Point> = Vec::new();
    loop
        invariant
            walker.wf(),
            out@ + walker.upcoming() == super_points(start, end),
        ensures
            out@ == super_points(start, end),
        decreases walker.upcoming().len(),
    {
        match walker.next() {
            Some(p) => {
                out.push(p);
                proof {
                    assert(out@ + walker.upcoming() =~= super_points(start, end));
                }
            },
            None => {
                proof {
                    assert(out@ =~= super_points(start, end));
                }
                break ;
            },
        }
    }
    proof {
        let (nx, ny) = deltas(start, end);
        lemma_super_index_path_props(0, 0, nx, ny);
        lemma_sign_abs(end.0 - start.0);
        lemma_sign_abs(end.1 - start.1);
        if nx > 0 || ny > 0 {
            let path = super_index_path(0, 0, nx, ny);
            assert(out@.last() == ((start.0 + sign_int(end.0 - start.0) * path.last().0) as i64, (
            start.1 + sign_int(end.1 - start.1) * path.last().1) as i64));
        }
    }
    out
}

/// Degenerate input: when start and end coincide both walkers produce the
/// single-point sequence holding that point.
pub proof fn lemma_walkers_degenerate(a: Point)
    ensures
        walk_points(a, a) == seq![a],
        super_points(a, a) == seq![a],
{
    assert(walk_index_path(0, 0, 0, 0) =~= Seq::empty());
    assert(super_index_path(0, 0, 0, 0) =~= Seq::empty());
    assert(walk_points(a, a) =~= seq![a]);
    assert(super_points(a, a) =~= seq![a]);
}

/// The supercover walk is symmetric under endpoint reversal: walking from
/// `b` back to `a` yields exactly the reversed point sequence of the walk
/// from `a` to `b`.
pub proof fn lemma_supercover_symmetric(a: Point, b: Point)
    requires
        coords_ok(a),
        coords_ok(b),
    ensures
        super_points(a, b) == super_points(b, a).reverse(),
{
    let (nx, ny) = deltas(a, b);
    assert(deltas(b, a) == (nx, ny));
    let fwd = full_super(nx, ny);
    let sxa = sign_int(b.0 - a.0);
    let sya = sign_int(b.1 - a.1);
    let sxb = sign_int(a.0 - b.0);
    let syb = sign_int(a.1 - b.1);
    let fab = |p: (int, int)| (((a.0 + sxa * p.0) as i64, (a.1 + sya * p.1) as i64));
    let fba = |p: (int, int)| (((b.0 + sxb * p.0) as i64, (b.1 + syb * p.1) as i64));
    lemma_super_index_path_props(0, 0, nx, ny);
    lemma_super_path_mirror(nx, ny);
    lemma_sign_abs(b.0 - a.0);
    lemma_sign_abs(b.1 - a.1);
    lemma_sign_abs(a.0 - b.0);
    lemma_sign_abs(a.1 - b.1);
    assert(super_points(a, b) =~= fwd.map_values(fab)) by {
        assert(sxa * 0 == 0) by (nonlinear_arith);
        assert(sya * 0 == 0) by (nonlinear_arith);
    }
    assert(super_points(b, a) =~= fwd.map_values(fba)) by {
        assert(sxb * 0 == 0) by (nonlinear_arith);
        assert(syb * 0 == 0) by (nonlinear_arith);
    }
    let len = fwd.len() as int;
    assert(fwd.map_values(fab) =~= fwd.map_values(fba).reverse()) by {
        assert forall|k: int| 0 <= k < len implies fwd.map_values(fab)[k] == fwd.map_values(
            fba,
        ).reverse()[k] by {
            assert(fwd[len - 1 - k] == mirror_path(fwd, nx, ny).reverse()[len - 1 - k]);
            assert(fwd[len - 1 - k] == (nx - fwd[k].0, ny - fwd[k].1));
            let q = fwd[k].0;
            let r = fwd[k].1;
            assert(0 <= q <= nx && 0 <= r <= ny) by {
                if k > 0 {
                    assert(fwd[k] == super_index_path(0, 0, nx, ny)[k - 1]);
                }
            }
            assert(b.0 + sxb * (nx - q) == a.0 + sxa * q) by {
                lemma_mirror_coord(a.0 as int, b.0 as int, nx, q);
            }
            assert(b.1 + syb * (ny - r) == a.1 + sya * r) by {
                lemma_mirror_coord(a.1 as int, b.1 as int, ny, r);
            }
            assert(fwd.map_values(fba).reverse()[k] == fba(fwd[len - 1 - k]));
        }
    }
}

/// Walking a coordinate axis backwards from `v1` lands on the same points,
/// mirrored in the progress counter.
proof fn lemma_mirror_coord(v0: int, v1: int, n: int, q: int)
    requires
        n == abs_int(v1 - v0),
        0 <= q <= n,
        sign_int(v1 - v0) * n == v1 - v0,
        sign_int(v0 - v1) * n == v0 - v1,
    ensures
        v1 + sign_int(v0 - v1) * (n - q) == v0 + sign_int(v1 - v0) * q,
{
    if v1 > v0 {
        assert(sign_int(v1 - v0) == 1 && sign_int(v0 - v1) == -1);
        assert(v1 + (-1) * (n - q) == v0 + 1 * q);
    } else if v1 < v0 {
        assert(sign_int(v1 - v0) == -1 && sign_int(v0 - v1) == 1);
        assert(v1 + 1 * (n - q) == v0 + (-1) * q);
    } else {
        assert(n == 0 && q == 0);
        assert(v1 + sign_int(v0 - v1) * 0 == v0 + sign_int(v1 - v0) * 0) by (nonlinear_arith)
            requires
                v0 == v1,
        ;
    }
}

/// When no exact fractional tie can occur between the two axes, the
/// supercover walk never takes a diagonal step and agrees with the greedy
/// walk point for point.
pub proof fn lemma_supercover_walk_grid_agree(a: Point, b: Point)
    requires
        coords_ok(a),
        coords_ok(b),
        tie_free(deltas(a, b).0, deltas(a, b).1),
    ensures
        super_points(a, b) == walk_points(a, b),
{
    let (nx, ny) = deltas(a, b);
    lemma_tie_free_paths_equal(0, 0, nx, ny);
    assert(super_points(a, b) =~= walk_points(a, b));
}

/// The sorted walk is symmetric under endpoint reversal: reordering the
/// endpoints by ascending y and undoing the reorder by reversing the output
/// makes the greedy walk agree with its own reversal from the other end.
pub proof fn lemma_sorted_walk_grid_symmetric(a: Point, b: Point)
    requires
        coords_ok(a),
        coords_ok(b),
    ensures
        sorted_walk_points(a, b) == sorted_walk_points(b, a).reverse(),
{
    if a.1 > b.1 {
        assert(sorted_walk_points(b, a) == walk_points(b, a));
        assert(sorted_walk_points(a, b) == walk_points(b, a).reverse());
    } else if a.1 < b.1 {
        assert(sorted_walk_points(a, b) == walk_points(a, b));
        assert(sorted_walk_points(b, a) == walk_points(a, b).reverse());
        assert(walk_points(a, b).reverse().reverse() =~= walk_points(a, b));
    } else {
        let (nx, ny) = deltas(a, b);
        assert(ny == 0);
        assert(tie_free(nx, 0));
        assert(tie_free(nx, 0) == tie_free(deltas(b, a).0, deltas(b, a).1));
        lemma_supercover_walk_grid_agree(a, b);
        lemma_supercover_walk_grid_agree(b, a);
        lemma_supercover_symmetric(a, b);
    }
}

} // verus!
