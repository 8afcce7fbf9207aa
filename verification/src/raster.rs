//! The mathematical model of an image: a width, a height and one pixel for
//! every coordinate inside them.

use vstd::prelude::*;
use crate::texel::Texel;

verus! {

/// A grid of pixels. Coordinates are `(x, y)` with `x` counted from the left
/// and `y` from the top.
#[verifier::ext_equal]
pub struct Raster {
    pub width: nat,
    pub height: nat,
    pub pixels: Map<(int, int), Texel>,
}

/// The coordinates of a `width` by `height` grid.
pub open spec fn grid(width: nat, height: nat) -> Set<(int, int)> {
    Set::new(|c: (int, int)| 0 <= c.0 < width && 0 <= c.1 < height)
}

impl Raster {
    /// The raster of the given size whose channels are all zero.
    pub open spec fn blank(width: nat, height: nat) -> Raster {
        Raster {
            width,
            height,
            pixels: Map::new(
                |c: (int, int)| grid(width, height).contains(c),
                |c: (int, int)| Texel { r: 0, g: 0, b: 0, a: 0 },
            ),
        }
    }

    /// `(x, y)` names a pixel of the raster.
    pub open spec fn contains(self, x: int, y: int) -> bool {
        0 <= x < self.width && 0 <= y < self.height
    }

    /// The pixel at `(x, y)`.
    pub open spec fn at(self, x: int, y: int) -> Texel {
        self.pixels[(x, y)]
    }

    /// A raster holds a pixel exactly for the coordinates of its grid.
    pub open spec fn wf(self) -> bool {
        self.pixels.dom() =~= grid(self.width, self.height)
    }

    /// The raster with the pixel at `(x, y)` replaced.
    pub open spec fn with_pixel(self, x: int, y: int, p: Texel) -> Raster {
        Raster { width: self.width, height: self.height, pixels: self.pixels.insert((x, y), p) }
    }

    /// The top-left part of the raster that is `width` wide and `height`
    /// high.
    pub open spec fn window(self, width: nat, height: nat) -> Raster {
        Raster { width, height, pixels: self.pixels.restrict(grid(width, height)) }
    }

    /// The raster with every pixel that `patch` holds taken from `patch`.
    pub open spec fn patched(self, patch: Raster) -> Raster {
        Raster {
            width: self.width,
            height: self.height,
            pixels: self.pixels.union_prefer_right(patch.pixels),
        }
    }
}

} // verus!
