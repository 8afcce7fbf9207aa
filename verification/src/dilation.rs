//! What dilation computes, stated over rasters.

use vstd::prelude::*;
use crate::raster::{grid, Raster};
use crate::texel::Texel;

verus! {

/// The eight neighbours of a pixel as `(dx, dy)`, in the order in which they
/// are asked for a colour: left, right, up, down, then the diagonals.
pub const NEIGHBOR_OFFSETS: [(i32, i32); 8] = [
    (-1, 0),
    (1, 0),
    (0, -1),
    (0, 1),
    (-1, -1),
    (1, -1),
    (-1, 1),
    (1, 1),
];

/// The offsets of `NEIGHBOR_OFFSETS` as mathematical integers.
pub open spec fn neighbor_offsets() -> Seq<(int, int)> {
    seq![(-1, 0), (1, 0), (0, -1), (0, 1), (-1, -1), (1, -1), (-1, 1), (1, 1)]
}

/// `(x, y)` lies inside the raster and is not fully transparent, so it can
/// give its colour to a neighbour.
pub open spec fn donor(r: Raster, x: int, y: int) -> bool {
    r.contains(x, y) && r.at(x, y).a > 0
}

/// The `k`-th neighbour of `(x, y)`.
pub open spec fn neighbor(x: int, y: int, k: int) -> (int, int) {
    (x + neighbor_offsets()[k].0, y + neighbor_offsets()[k].1)
}

/// The first donor among the neighbours of `(x, y)` from the `k`-th on.
pub open spec fn donor_from(r: Raster, x: int, y: int, k: int) -> Option<Texel>
    decreases 8 - k,
{
    if k < 0 || k >= 8 {
        None
    } else if donor(r, neighbor(x, y, k).0, neighbor(x, y, k).1) {
        Some(r.at(neighbor(x, y, k).0, neighbor(x, y, k).1))
    } else {
        donor_from(r, x, y, k + 1)
    }
}

/// The pixel that donates to `(x, y)`: the first neighbour in the fixed
/// order that is a donor, if there is one.
pub open spec fn neighbor_color(r: Raster, x: int, y: int) -> Option<Texel> {
    donor_from(r, x, y, 0)
}

/// The pixel at `(x, y)` after one step: a transparent pixel takes the whole
/// value of its donor, every other pixel stays.
pub open spec fn step_pixel(r: Raster, x: int, y: int) -> Texel {
    if r.at(x, y).a > 0 {
        r.at(x, y)
    } else {
        match neighbor_color(r, x, y) {
            Some(color) => color,
            None => r.at(x, y),
        }
    }
}

/// One dilation step. Every pixel of the result is computed from `r` alone.
pub open spec fn step(r: Raster) -> Raster {
    Raster {
        width: r.width,
        height: r.height,
        pixels: Map::new(
            |c: (int, int)| grid(r.width, r.height).contains(c),
            |c: (int, int)| step_pixel(r, c.0, c.1),
        ),
    }
}

/// `n` dilation steps.
pub open spec fn steps(r: Raster, n: nat) -> Raster
    decreases n,
{
    if n == 0 {
        r
    } else {
        step(steps(r, (n - 1) as nat))
    }
}

/// The colours of `r` under the alpha values of `shape`.
pub open spec fn with_alpha_of(r: Raster, shape: Raster) -> Raster {
    Raster {
        width: r.width,
        height: r.height,
        pixels: Map::new(
            |c: (int, int)| grid(r.width, r.height).contains(c),
            |c: (int, int)| r.at(c.0, c.1).with_alpha_of(shape.at(c.0, c.1)),
        ),
    }
}

/// The result of dilation: `padding` steps, then the alpha values of the
/// input again.
pub open spec fn dilated(r: Raster, padding: nat) -> Raster {
    with_alpha_of(steps(r, padding), r)
}

/// A step over the whole of a raster is the step itself: the window and the
/// patch change nothing.
pub proof fn full_window_step(r: Raster)
    requires
        r.wf(),
    ensures
        r.window(r.width, r.height) == r,
        r.patched(step(r.window(r.width, r.height))) == step(r),
{
    assert(r.window(r.width, r.height) =~= r);
    assert(r.patched(step(r)) =~= step(r));
}

} // verus!
