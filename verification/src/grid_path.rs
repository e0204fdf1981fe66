//! Index-level model of the orthogonal grid walkers.
//!
//! A walk between two lattice points is described by two progress counters
//! (ix, iy) that run from (0, 0) to (nx, ny), where nx and ny are the absolute
//! coordinate differences of the endpoints.  At each step the walker compares
//! the fractional progress (0.5 + ix) / nx with (0.5 + iy) / ny and advances
//! the axis that lags behind.  The comparison is carried out exactly, by
//! cross-multiplication, so no division is ever evaluated.

use vstd::prelude::*;

verus! {

/// Sign of (0.5 + ix) / nx - (0.5 + iy) / ny as exact rationals, by
/// cross-multiplication: negative when the x axis lags behind, zero on a tie.
pub open spec fn frac_cmp(ix: int, iy: int, nx: int, ny: int) -> int {
    (2 * ix + 1) * ny - (2 * iy + 1) * nx
}

/// The progress-counter pairs visited after (ix, iy) by the greedy walker,
/// which steps a single axis per pull and resolves ties in favour of y.
pub open spec fn walk_index_path(ix: int, iy: int, nx: int, ny: int) -> Seq<(int, int)>
    decreases nx - ix + ny - iy
        when 0 <= ix <= nx && 0 <= iy <= ny
{
    if ix < nx && iy < ny {
        if frac_cmp(ix, iy, nx, ny) < 0 {
            seq![(ix + 1, iy)] + walk_index_path(ix + 1, iy, nx, ny)
        } else {
            seq![(ix, iy + 1)] + walk_index_path(ix, iy + 1, nx, ny)
        }
    } else if ix < nx {
        seq![(ix + 1, iy)] + walk_index_path(ix + 1, iy, nx, ny)
    } else if iy < ny {
        seq![(ix, iy + 1)] + walk_index_path(ix, iy + 1, nx, ny)
    } else {
        Seq::empty()
    }
}

/// The progress-counter pairs visited after (ix, iy) by the supercover
/// walker: an exact fractional tie advances both axes in one diagonal step.
pub open spec fn super_index_path(ix: int, iy: int, nx: int, ny: int) -> Seq<(int, int)>
    decreases nx - ix + ny - iy
        when 0 <= ix <= nx && 0 <= iy <= ny
{
    if ix < nx && iy < ny {
        if frac_cmp(ix, iy, nx, ny) == 0 {
            seq![(ix + 1, iy + 1)] + super_index_path(ix + 1, iy + 1, nx, ny)
        } else if frac_cmp(ix, iy, nx, ny) < 0 {
            seq![(ix + 1, iy)] + super_index_path(ix + 1, iy, nx, ny)
        } else {
            seq![(ix, iy + 1)] + super_index_path(ix, iy + 1, nx, ny)
        }
    } else if ix < nx {
        seq![(ix + 1, iy)] + super_index_path(ix + 1, iy, nx, ny)
    } else if iy < ny {
        seq![(ix, iy + 1)] + super_index_path(ix, iy + 1, nx, ny)
    } else {
        Seq::empty()
    }
}

/// The greedy walker takes exactly one orthogonal step per point, so the
/// number of points after (ix, iy) is the remaining Manhattan distance.
pub proof fn lemma_walk_index_path_len(ix: int, iy: int, nx: int, ny: int)
    requires
        0 <= ix <= nx,
        0 <= iy <= ny,
    ensures
        walk_index_path(ix, iy, nx, ny).len() == (nx - ix) + (ny - iy),
    decreases nx - ix + ny - iy,
{
    if ix < nx && iy < ny {
        if frac_cmp(ix, iy, nx, ny) < 0 {
            lemma_walk_index_path_len(ix + 1, iy, nx, ny);
        } else {
            lemma_walk_index_path_len(ix, iy + 1, nx, ny);
        }
    } else if ix < nx {
        lemma_walk_index_path_len(ix + 1, iy, nx, ny);
    } else if iy < ny {
        lemma_walk_index_path_len(ix, iy + 1, nx, ny);
    }
}

/// Every pair on the greedy path stays within the progress rectangle, and a
/// non-terminal state always ends its path at (nx, ny).
pub proof fn lemma_walk_index_path_props(ix: int, iy: int, nx: int, ny: int)
    requires
        0 <= ix <= nx,
        0 <= iy <= ny,
    ensures
        forall|k: int|
            0 <= k < walk_index_path(ix, iy, nx, ny).len() ==> {
                let p = #[trigger] walk_index_path(ix, iy, nx, ny)[k];
                0 <= p.0 <= nx && 0 <= p.1 <= ny
            },
        ix < nx || iy < ny ==> walk_index_path(ix, iy, nx, ny).len() > 0
            && walk_index_path(ix, iy, nx, ny).last() == (nx, ny),
    decreases nx - ix + ny - iy,
{
    if ix < nx || iy < ny {
        let (jx, jy): (int, int) = if ix < nx && iy < ny {
            if frac_cmp(ix, iy, nx, ny) < 0 {
                (ix + 1, iy)
            } else {
                (ix, iy + 1)
            }
        } else if ix < nx {
            (ix + 1, iy)
        } else {
            (ix, iy + 1)
        };
        lemma_walk_index_path_props(jx, jy, nx, ny);
        let path = walk_index_path(ix, iy, nx, ny);
        let rest = walk_index_path(jx, jy, nx, ny);
        assert(path == seq![(jx, jy)] + rest);
        assert forall|k: int| 0 <= k < path.len() implies {
            let p = #[trigger] path[k];
            0 <= p.0 <= nx && 0 <= p.1 <= ny
        } by {
            if k > 0 {
                assert(path[k] == rest[k - 1]);
            }
        }
        if rest.len() > 0 {
            assert(path.last() == rest.last());
        } else {
            assert(jx == nx && jy == ny);
        }
    }
}

/// Every pair on the supercover path stays within the progress rectangle, and
/// a non-terminal state always ends its path at (nx, ny).
pub proof fn lemma_super_index_path_props(ix: int, iy: int, nx: int, ny: int)
    requires
        0 <= ix <= nx,
        0 <= iy <= ny,
    ensures
        forall|k: int|
            0 <= k < super_index_path(ix, iy, nx, ny).len() ==> {
                let p = #[trigger] super_index_path(ix, iy, nx, ny)[k];
                0 <= p.0 <= nx && 0 <= p.1 <= ny
            },
        ix < nx || iy < ny ==> super_index_path(ix, iy, nx, ny).len() > 0
            && super_index_path(ix, iy, nx, ny).last() == (nx, ny),
    decreases nx - ix + ny - iy,
{
    if ix < nx || iy < ny {
        let (jx, jy): (int, int) = if ix < nx && iy < ny {
            if frac_cmp(ix, iy, nx, ny) == 0 {
                (ix + 1, iy + 1)
            } else if frac_cmp(ix, iy, nx, ny) < 0 {
                (ix + 1, iy)
            } else {
                (ix, iy + 1)
            }
        } else if ix < nx {
            (ix + 1, iy)
        } else {
            (ix, iy + 1)
        };
        lemma_super_index_path_props(jx, jy, nx, ny);
        let path = super_index_path(ix, iy, nx, ny);
        let rest = super_index_path(jx, jy, nx, ny);
        assert(path == seq![(jx, jy)] + rest);
        assert forall|k: int| 0 <= k < path.len() implies {
            let p = #[trigger] path[k];
            0 <= p.0 <= nx && 0 <= p.1 <= ny
        } by {
            if k > 0 {
                assert(path[k] == rest[k - 1]);
            }
        }
        if rest.len() > 0 {
            assert(path.last() == rest.last());
        } else {
            if jx < nx || jy < ny {
                assert(rest.len() > 0);
            }
        }
    }
}

/// No exact fractional tie occurs anywhere between magnitudes (nx, ny).
pub open spec fn tie_free(nx: int, ny: int) -> bool {
    forall|i: int, j: int|
        0 <= i < nx && 0 <= j < ny ==> #[trigger] frac_cmp(i, j, nx, ny) != 0
}

/// When no fractional tie can occur, the greedy walker and the supercover
/// walker make the same decision at every step, so their paths coincide.
pub proof fn lemma_tie_free_paths_equal(ix: int, iy: int, nx: int, ny: int)
    requires
        0 <= ix <= nx,
        0 <= iy <= ny,
        tie_free(nx, ny),
    ensures
        walk_index_path(ix, iy, nx, ny) == super_index_path(ix, iy, nx, ny),
    decreases nx - ix + ny - iy,
{
    if ix < nx && iy < ny {
        assert(frac_cmp(ix, iy, nx, ny) != 0);
        if frac_cmp(ix, iy, nx, ny) < 0 {
            lemma_tie_free_paths_equal(ix + 1, iy, nx, ny);
        } else {
            lemma_tie_free_paths_equal(ix, iy + 1, nx, ny);
        }
    } else if ix < nx {
        lemma_tie_free_paths_equal(ix + 1, iy, nx, ny);
    } else if iy < ny {
        lemma_tie_free_paths_equal(ix, iy + 1, nx, ny);
    }
}

/// Reflect every progress pair through the middle of the rectangle.
pub open spec fn mirror_path(s: Seq<(int, int)>, nx: int, ny: int) -> Seq<(int, int)> {
    s.map_values(|p: (int, int)| (nx - p.0, ny - p.1))
}

/// The whole supercover index path, current pair (0, 0) included.
pub open spec fn full_super(nx: int, ny: int) -> Seq<(int, int)> {
    seq![(0int, 0int)] + super_index_path(0, 0, nx, ny)
}

/// Interleaving invariant of every reachable supercover state: the most
/// recent step of each axis happened no later than the other axis's next one.
pub open spec fn sym_inv(ix: int, iy: int, nx: int, ny: int) -> bool {
    (2 * ix - 1) * ny < (2 * iy + 1) * nx && (2 * iy - 1) * nx < (2 * ix + 1) * ny
}

/// Induction hypothesis carried along the path: the part of the full path up
/// to the current pair is the mirrored reversal of the path from the mirrored
/// pair.
pub open spec fn sym_claim(ix: int, iy: int, nx: int, ny: int) -> bool {
    full_super(nx, ny) == mirror_path(
        seq![(nx - ix, ny - iy)] + super_index_path(nx - ix, ny - iy, nx, ny),
        nx,
        ny,
    ).reverse() + super_index_path(ix, iy, nx, ny)
}

/// The forward step from (ix, iy) and the step taken at the mirror of its
/// successor are exact reverses of one another; carried to the end of the
/// path this yields the mirror symmetry of the whole supercover path.
proof fn lemma_super_mirror_step(ix: int, iy: int, nx: int, ny: int)
    requires
        0 <= ix <= nx,
        0 <= iy <= ny,
        sym_inv(ix, iy, nx, ny),
        sym_claim(ix, iy, nx, ny),
    ensures
        full_super(nx, ny) == mirror_path(full_super(nx, ny), nx, ny).reverse(),
    decreases nx - ix + ny - iy,
{
    if ix == nx && iy == ny {
        assert(super_index_path(nx, ny, nx, ny) =~= Seq::empty());
        assert(full_super(nx, ny) =~= mirror_path(full_super(nx, ny), nx, ny).reverse());
    } else {
        let c = frac_cmp(ix, iy, nx, ny);
        if ix < nx && iy == ny {
            assert(frac_cmp(ix, iy, nx, ny) < 0) by (nonlinear_arith)
                requires
                    iy == ny,
                    0 <= ix < nx,
                    0 <= ny,
            ;
        }
        if ix == nx && iy < ny {
            assert(frac_cmp(ix, iy, nx, ny) > 0) by (nonlinear_arith)
                requires
                    ix == nx,
                    0 <= iy < ny,
                    0 <= nx,
            ;
        }
        let (jx, jy): (int, int) = if ix < nx && iy < ny && c == 0 {
            (ix + 1, iy + 1)
        } else if c < 0 {
            (ix + 1, iy)
        } else {
            (ix, iy + 1)
        };
        // the forward unfolding
        assert(super_index_path(ix, iy, nx, ny) == seq![(jx, jy)] + super_index_path(
            jx,
            jy,
            nx,
            ny,
        ));
        // the successor state satisfies the interleaving invariant
        if jx == ix + 1 && jy == iy {
            assert((2 * iy - 1) * nx < (2 * (ix + 1) + 1) * ny) by (nonlinear_arith)
                requires
                    (2 * iy - 1) * nx < (2 * ix + 1) * ny,
                    0 <= ny,
            ;
        } else if jx == ix && jy == iy + 1 {
            assert((2 * ix - 1) * ny < (2 * (iy + 1) + 1) * nx) by (nonlinear_arith)
                requires
                    (2 * ix - 1) * ny < (2 * iy + 1) * nx,
                    0 <= nx,
            ;
        } else {
            assert((2 * (ix + 1) - 1) * ny < (2 * (iy + 1) + 1) * nx && (2 * (iy + 1) - 1) * nx < (
            2 * (ix + 1) + 1) * ny) by (nonlinear_arith)
                requires
                    frac_cmp(ix, iy, nx, ny) == 0,
                    0 <= ix < nx,
                    0 <= iy < ny,
            ;
        }
        assert(sym_inv(jx, jy, nx, ny));
        // the step taken at the mirror of the successor leads to the mirror
        // of the current pair
        let mjx = nx - jx;
        let mjy = ny - jy;
        if jx == ix + 1 && jy == iy {
            if iy >= 1 {
                assert(frac_cmp(mjx, mjy, nx, ny) == -((2 * ix + 1) * ny - (2 * iy - 1) * nx))
                    by (nonlinear_arith)
                    requires
                        mjx == nx - ix - 1,
                        mjy == ny - iy,
                ;
                assert(frac_cmp(mjx, mjy, nx, ny) < 0);
            }
        } else if jx == ix && jy == iy + 1 {
            if ix >= 1 {
                assert(frac_cmp(mjx, mjy, nx, ny) == (2 * iy + 1) * nx - (2 * ix - 1) * ny)
                    by (nonlinear_arith)
                    requires
                        mjx == nx - ix,
                        mjy == ny - iy - 1,
                ;
                assert(frac_cmp(mjx, mjy, nx, ny) > 0);
            }
        } else {
            assert(frac_cmp(mjx, mjy, nx, ny) == 0) by (nonlinear_arith)
                requires
                    frac_cmp(ix, iy, nx, ny) == 0,
                    mjx == nx - ix - 1,
                    mjy == ny - iy - 1,
            ;
        }
        // the backward unfolding
        assert(super_index_path(mjx, mjy, nx, ny) == seq![(nx - ix, ny - iy)] + super_index_path(
            nx - ix,
            ny - iy,
            nx,
            ny,
        ));
        // carry the claim to the successor
        assert(mirror_path(
            seq![(mjx, mjy)] + super_index_path(mjx, mjy, nx, ny),
            nx,
            ny,
        ).reverse() + super_index_path(jx, jy, nx, ny) =~= mirror_path(
            seq![(nx - ix, ny - iy)] + super_index_path(nx - ix, ny - iy, nx, ny),
            nx,
            ny,
        ).reverse() + super_index_path(ix, iy, nx, ny));
        assert(sym_claim(jx, jy, nx, ny));
        lemma_super_mirror_step(jx, jy, nx, ny);
    }
}

/// The supercover index path is its own reflection: reflecting every pair
/// through the middle of the progress rectangle and reversing the order gives
/// the path back.  This is the exact reason the supercover walk is symmetric
/// under endpoint reversal: the tie condition is direction-independent.
pub proof fn lemma_super_path_mirror(nx: int, ny: int)
    requires
        0 <= nx,
        0 <= ny,
    ensures
        full_super(nx, ny) == mirror_path(full_super(nx, ny), nx, ny).reverse(),
{
    if nx == 0 && ny == 0 {
        assert(super_index_path(0, 0, 0, 0) =~= Seq::empty());
        assert(full_super(0, 0) =~= mirror_path(full_super(0, 0), 0, 0).reverse());
    } else {
        assert(super_index_path(nx, ny, nx, ny) =~= Seq::empty());
        assert(mirror_path(
            seq![(nx - 0, ny - 0)] + super_index_path(nx - 0, ny - 0, nx, ny),
            nx,
            ny,
        ).reverse() + super_index_path(0, 0, nx, ny) =~= full_super(nx, ny));
        assert(sym_claim(0, 0, nx, ny));
        assert(sym_inv(0, 0, nx, ny)) by (nonlinear_arith)
            requires
                0 <= nx,
                0 <= ny,
                nx + ny >= 1,
        ;
        lemma_super_mirror_step(0, 0, nx, ny);
    }
}

} // verus!
