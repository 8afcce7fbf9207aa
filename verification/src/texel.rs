//! One RGBA sample of a texture.

use vstd::prelude::*;

verus! {

/// Four 8-bit channels: red, green, blue and alpha.
#[derive(Clone, Copy, Debug, PartialEq, Eq, Structural)]
pub struct Texel {
    pub r: u8,
    pub g: u8,
    pub b: u8,
    pub a: u8,
}

impl Texel {
    /// A texel is transparent when its alpha is zero; only such texels
    /// ever receive a colour from a neighbour.
    pub open spec fn transparent(self) -> bool {
        self.a == 0
    }

    /// The colour of `self` under the alpha of `shape`.
    pub open spec fn with_alpha_of(self, shape: Texel) -> Texel {
        Texel { r: self.r, g: self.g, b: self.b, a: shape.a }
    }

    /// Builds a texel from its channels in the order red, green, blue, alpha.
    pub fn from_channels(channels: [u8; 4]) -> (p: Texel)
        ensures
            p.r == channels[0],
            p.g == channels[1],
            p.b == channels[2],
            p.a == channels[3],
    {
        Texel { r: channels[0], g: channels[1], b: channels[2], a: channels[3] }
    }

    /// The channels in the order red, green, blue, alpha.
    pub fn channels(&self) -> (c: [u8; 4])
        ensures
            c[0] == self.r,
            c[1] == self.g,
            c[2] == self.b,
            c[3] == self.a,
    {
        [self.r, self.g, self.b, self.a]
    }

    pub fn is_transparent(&self) -> (t: bool)
        ensures
            t == self.transparent(),
    {
        self.a == 0
    }

    /// Keeps the colour and takes the alpha of `shape`.
    pub fn restore_alpha(&self, shape: &Texel) -> (p: Texel)
        ensures
            p == self.with_alpha_of(*shape),
    {
        Texel { r: self.r, g: self.g, b: self.b, a: shape.a }
    }
}

} // verus!
