//! Colour dilation for RGBA textures: the colour of opaque pixels is bled
//! into neighbouring fully transparent pixels, while every alpha value is
//! kept, so that later filtering blends towards a plausible colour.

pub mod texel;
pub mod raster;
pub mod canvas;
pub mod dilation;
pub mod engine;
pub mod laws;
pub mod texture;
pub mod batch;
pub mod paths;
pub mod planner;

pub use crate::canvas::Canvas;
pub use crate::engine::{dilate, process_image};
pub use crate::texel::Texel;
pub use crate::texture::{fix_texture, TextureError};
