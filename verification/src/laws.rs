//! Properties of dilation that hold for every raster, proved from the
//! definitions in `dilation`.

use vstd::prelude::*;
use crate::dilation::{dilated, donor, donor_from, neighbor, step, step_pixel, steps, with_alpha_of};
use crate::raster::{grid, Raster};

verus! {

/// The absolute value.
pub open spec fn magnitude(v: int) -> int {
    if v < 0 {
        -v
    } else {
        v
    }
}

/// The Chebyshev distance of two coordinates: the number of moves to one of
/// the eight neighbours that lead from one to the other.
pub open spec fn chebyshev(x0: int, y0: int, x1: int, y1: int) -> int {
    if magnitude(x1 - x0) >= magnitude(y1 - y0) {
        magnitude(x1 - x0)
    } else {
        magnitude(y1 - y0)
    }
}

/// Every pixel of the raster is a donor: none is fully transparent.
pub open spec fn all_opaque(r: Raster) -> bool {
    forall|x: int, y: int| r.contains(x, y) ==> #[trigger] donor(r, x, y)
}

/// `(cx, cy)` is the one pixel of the raster that is not fully transparent.
pub open spec fn lone_donor(r: Raster, cx: int, cy: int) -> bool {
    &&& donor(r, cx, cy)
    &&& forall|x: int, y: int| #[trigger] donor(r, x, y) ==> x == cx && y == cy
}

/// Any number of steps keeps the size, and after at least one step the
/// raster holds a pixel exactly for the coordinates of its grid.
pub proof fn steps_keep_size(r: Raster, n: nat)
    ensures
        steps(r, n).width == r.width,
        steps(r, n).height == r.height,
        r.wf() || n > 0 ==> steps(r, n).wf(),
    decreases n,
{
    if n > 0 {
        steps_keep_size(r, (n - 1) as nat);
    }
}

/// Dilation keeps the size, and its result is well formed.
pub proof fn dilated_keeps_size(r: Raster, padding: nat)
    ensures
        dilated(r, padding).width == r.width,
        dilated(r, padding).height == r.height,
        dilated(r, padding).wf(),
{
    steps_keep_size(r, padding);
}

/// The tie-break: what `donor_from` finds is the donor with the least index
/// from `k` on, and it finds nothing only where no neighbour from `k` on is
/// a donor.
pub proof fn donor_from_is_first(r: Raster, x: int, y: int, k: int)
    requires
        0 <= k <= 8,
    ensures
        match donor_from(r, x, y, k) {
            Some(color) => exists|j: int|
                {
                    &&& k <= j < 8
                    &&& #[trigger] donor(r, neighbor(x, y, j).0, neighbor(x, y, j).1)
                    &&& color == r.at(neighbor(x, y, j).0, neighbor(x, y, j).1)
                    &&& forall|i: int|
                        k <= i < j ==> !#[trigger] donor(r, neighbor(x, y, i).0, neighbor(x, y, i).1)
                },
            None => forall|j: int|
                k <= j < 8 ==> !#[trigger] donor(r, neighbor(x, y, j).0, neighbor(x, y, j).1),
        },
    decreases 8 - k,
{
    if k < 8 {
        if donor(r, neighbor(x, y, k).0, neighbor(x, y, k).1) {
        } else {
            donor_from_is_first(r, x, y, k + 1);
            match donor_from(r, x, y, k + 1) {
                Some(color) => {
                    let j = choose|j: int|
                        {
                            &&& k + 1 <= j < 8
                            &&& #[trigger] donor(r, neighbor(x, y, j).0, neighbor(x, y, j).1)
                            &&& color == r.at(neighbor(x, y, j).0, neighbor(x, y, j).1)
                            &&& forall|i: int|
                                k + 1 <= i < j ==> !#[trigger] donor(
                                    r,
                                    neighbor(x, y, i).0,
                                    neighbor(x, y, i).1,
                                )
                        };
                    assert(donor(r, neighbor(x, y, j).0, neighbor(x, y, j).1));
                },
                None => {},
            }
        }
    }
}

/// The neighbours of a pixel are the eight coordinates at Chebyshev
/// distance one.
pub proof fn neighbors_are_adjacent(x: int, y: int)
    ensures
        forall|k: int|
            0 <= k < 8 ==> chebyshev(x, y, (#[trigger] neighbor(x, y, k)).0, neighbor(x, y, k).1)
                == 1,
        forall|nx: int, ny: int|
            chebyshev(x, y, nx, ny) == 1 ==> exists|k: int|
                0 <= k < 8 && #[trigger] neighbor(x, y, k) == (nx, ny),
{
    assert forall|nx: int, ny: int| chebyshev(x, y, nx, ny) == 1 implies exists|k: int|
        0 <= k < 8 && #[trigger] neighbor(x, y, k) == (nx, ny) by {
        let dx = nx - x;
        let dy = ny - y;
        let k: int = if dx == -1 && dy == 0 {
            0
        } else if dx == 1 && dy == 0 {
            1
        } else if dx == 0 && dy == -1 {
            2
        } else if dx == 0 && dy == 1 {
            3
        } else if dx == -1 && dy == -1 {
            4
        } else if dx == 1 && dy == -1 {
            5
        } else if dx == -1 && dy == 1 {
            6
        } else {
            7
        };
        assert(neighbor(x, y, k) == (nx, ny));
    }
}

/// Where no pixel is fully transparent, a step changes nothing, and so
/// does any number of steps.
pub proof fn opaque_steps_are_identity(r: Raster, n: nat)
    requires
        r.wf(),
        all_opaque(r),
    ensures
        steps(r, n) == r,
    decreases n,
{
    if n > 0 {
        opaque_steps_are_identity(r, (n - 1) as nat);
        assert(step(r) =~= r) by {
            assert forall|c: (int, int)| grid(r.width, r.height).contains(c) implies step(
                r,
            ).pixels[c] == r.pixels[c] by {
                assert(donor(r, c.0, c.1));
            }
        }
    }
}

/// Where no pixel is fully transparent, dilation by any padding returns
/// the raster unchanged.
pub proof fn opaque_raster_is_unchanged(r: Raster, padding: nat)
    requires
        r.wf(),
        all_opaque(r),
    ensures
        dilated(r, padding) == r,
{
    opaque_steps_are_identity(r, padding);
    assert(with_alpha_of(r, r) =~= r);
}

/// A raster without columns or without rows comes back unchanged.
pub proof fn empty_raster_is_unchanged(r: Raster, padding: nat)
    requires
        r.wf(),
        r.width == 0 || r.height == 0,
    ensures
        dilated(r, padding) == r,
{
    opaque_raster_is_unchanged(r, padding);
}

/// With padding zero, dilation returns the raster unchanged: colour and
/// alpha of every pixel.
pub proof fn zero_padding_is_identity(r: Raster)
    requires
        r.wf(),
    ensures
        dilated(r, 0) == r,
{
    assert(with_alpha_of(r, r) =~= r);
}

/// A pixel that is not fully transparent keeps its value through any number
/// of steps.
pub proof fn steps_keep_donors(r: Raster, n: nat, x: int, y: int)
    requires
        donor(r, x, y),
    ensures
        steps(r, n).at(x, y) == r.at(x, y),
    decreases n,
{
    if n > 0 {
        steps_keep_donors(r, (n - 1) as nat, x, y);
        steps_keep_size(r, (n - 1) as nat);
        assert(grid(r.width, r.height).contains((x, y)));
    }
}

/// After dilation, every pixel whose alpha was above zero has exactly the
/// value that it had.
pub proof fn dilation_keeps_donors(r: Raster, padding: nat, x: int, y: int)
    requires
        donor(r, x, y),
    ensures
        dilated(r, padding).at(x, y) == r.at(x, y),
{
    steps_keep_donors(r, padding, x, y);
    steps_keep_size(r, padding);
    assert(grid(r.width, r.height).contains((x, y)));
}

/// Dilation leaves the alpha of every pixel as it was.
pub proof fn dilation_keeps_alpha(r: Raster, padding: nat, x: int, y: int)
    requires
        r.contains(x, y),
    ensures
        dilated(r, padding).at(x, y).a == r.at(x, y).a,
{
    steps_keep_size(r, padding);
    assert(grid(r.width, r.height).contains((x, y)));
}

/// No donor of the raster lies within Chebyshev distance `n` of `(x, y)`.
pub open spec fn out_of_reach(r: Raster, n: nat, x: int, y: int) -> bool {
    forall|u: int, v: int| #[trigger] donor(r, u, v) ==> chebyshev(x, y, u, v) > n
}

/// A colour travels by no more than one pixel per step: a pixel that has
/// no donor within distance `n` is after `n` steps as it was.
pub proof fn steps_stay_in_reach(r: Raster, n: nat)
    requires
        r.wf(),
    ensures
        forall|x: int, y: int|
            r.contains(x, y) && out_of_reach(r, n, x, y) ==> #[trigger] steps(r, n).at(x, y)
                == r.at(x, y),
    decreases n,
{
    if n > 0 {
        let m = (n - 1) as nat;
        let s = steps(r, m);
        steps_stay_in_reach(r, m);
        steps_keep_size(r, m);
        assert forall|x: int, y: int| r.contains(x, y) && out_of_reach(r, n, x, y) implies #[trigger] steps(
            r,
            n,
        ).at(x, y) == r.at(x, y) by {
            assert(grid(r.width, r.height).contains((x, y)));
            assert(steps(r, n).at(x, y) == step_pixel(s, x, y));
            assert(out_of_reach(r, m, x, y));
            assert(s.at(x, y) == r.at(x, y));
            assert(!donor(r, x, y));
            neighbors_are_adjacent(x, y);
            assert forall|j: int| 0 <= j < 8 implies !#[trigger] donor(
                s,
                neighbor(x, y, j).0,
                neighbor(x, y, j).1,
            ) by {
                let nx = neighbor(x, y, j).0;
                let ny = neighbor(x, y, j).1;
                assert(chebyshev(x, y, nx, ny) == 1);
                if s.contains(nx, ny) {
                    assert forall|u: int, v: int| #[trigger] donor(r, u, v) implies chebyshev(
                        nx,
                        ny,
                        u,
                        v,
                    ) > m by {
                        assert(chebyshev(x, y, u, v) > n);
                    }
                    assert(out_of_reach(r, m, nx, ny));
                    assert(s.at(nx, ny) == r.at(nx, ny));
                    assert(!donor(r, nx, ny));
                }
            }
            donor_from_is_first(s, x, y, 0);
            assert(donor_from(s, x, y, 0) is None);
        }
    }
}

/// The bleed radius: dilation by `padding` changes no pixel that has no
/// donor within Chebyshev distance `padding`.
pub proof fn dilation_stays_in_reach(r: Raster, padding: nat, x: int, y: int)
    requires
        r.wf(),
        r.contains(x, y),
        out_of_reach(r, padding, x, y),
    ensures
        dilated(r, padding).at(x, y) == r.at(x, y),
{
    steps_stay_in_reach(r, padding);
    steps_keep_size(r, padding);
    assert(grid(r.width, r.height).contains((x, y)));
    assert(steps(r, padding).at(x, y) == r.at(x, y));
}

/// Around a lone donor the colour travels by exactly one pixel per step:
/// after `n` steps the pixels within Chebyshev distance `n` hold the donor's
/// value, and all others are as they were.
pub proof fn lone_donor_steps(r: Raster, cx: int, cy: int, n: nat)
    requires
        r.wf(),
        lone_donor(r, cx, cy),
    ensures
        forall|x: int, y: int|
            r.contains(x, y) ==> #[trigger] steps(r, n).at(x, y) == if chebyshev(cx, cy, x, y) <= n {
                r.at(cx, cy)
            } else {
                r.at(x, y)
            },
    decreases n,
{
    if n > 0 {
        let m = (n - 1) as nat;
        let s = steps(r, m);
        lone_donor_steps(r, cx, cy, m);
        steps_keep_size(r, m);
        assert forall|x: int, y: int| r.contains(x, y) implies #[trigger] steps(r, n).at(x, y)
            == if chebyshev(cx, cy, x, y) <= n {
            r.at(cx, cy)
        } else {
            r.at(x, y)
        } by {
            assert(grid(r.width, r.height).contains((x, y)));
            assert(steps(r, n).at(x, y) == step_pixel(s, x, y));
            let d = chebyshev(cx, cy, x, y);
            assert(s.at(x, y) == if d <= m {
                r.at(cx, cy)
            } else {
                r.at(x, y)
            });
            if d > m {
                assert(!donor(r, x, y));
                assert forall|u: int, v: int| #[trigger] donor(s, u, v) implies chebyshev(
                    cx,
                    cy,
                    u,
                    v,
                ) <= m && s.at(u, v) == r.at(cx, cy) by {
                    assert(r.contains(u, v));
                    assert(s.at(u, v) == if chebyshev(cx, cy, u, v) <= m {
                        r.at(cx, cy)
                    } else {
                        r.at(u, v)
                    });
                    if chebyshev(cx, cy, u, v) > m {
                        assert(!donor(r, u, v));
                    }
                }
                donor_from_is_first(s, x, y, 0);
                neighbors_are_adjacent(x, y);
                if d == n {
                    let tx = if x > cx {
                        x - 1
                    } else if x < cx {
                        x + 1
                    } else {
                        x
                    };
                    let ty = if y > cy {
                        y - 1
                    } else if y < cy {
                        y + 1
                    } else {
                        y
                    };
                    assert(chebyshev(x, y, tx, ty) == 1);
                    assert(chebyshev(cx, cy, tx, ty) == m);
                    assert(r.contains(tx, ty));
                    assert(s.at(tx, ty) == r.at(cx, cy));
                    assert(donor(s, tx, ty));
                    let k = choose|k: int| 0 <= k < 8 && #[trigger] neighbor(x, y, k) == (tx, ty);
                    assert(donor(s, neighbor(x, y, k).0, neighbor(x, y, k).1));
                    assert(donor_from(s, x, y, 0) is Some);
                } else {
                    assert forall|j: int| 0 <= j < 8 implies !#[trigger] donor(
                        s,
                        neighbor(x, y, j).0,
                        neighbor(x, y, j).1,
                    ) by {
                        assert(chebyshev(x, y, neighbor(x, y, j).0, neighbor(x, y, j).1) == 1);
                    }
                    assert(donor_from(s, x, y, 0) is None);
                }
            }
        }
    }
}

/// The bleed radius around a lone donor: after dilation by `padding`, every
/// pixel within Chebyshev distance `padding` of the donor has the donor's
/// colour under its own alpha, and every pixel farther away is as it was.
pub proof fn lone_donor_spreads(r: Raster, cx: int, cy: int, padding: nat, x: int, y: int)
    requires
        r.wf(),
        lone_donor(r, cx, cy),
        r.contains(x, y),
    ensures
        dilated(r, padding).at(x, y) == if chebyshev(cx, cy, x, y) <= padding {
            r.at(cx, cy).with_alpha_of(r.at(x, y))
        } else {
            r.at(x, y)
        },
{
    lone_donor_steps(r, cx, cy, padding);
    steps_keep_size(r, padding);
    assert(grid(r.width, r.height).contains((x, y)));
    assert(steps(r, padding).at(x, y) == if chebyshev(cx, cy, x, y) <= padding {
        r.at(cx, cy)
    } else {
        r.at(x, y)
    });
}

} // verus!
