//! The boundary to the `image` crate, whose buffers hold the pixels that the
//! engine reads and writes. The contracts of the private functions in
//! this file are not proved: each restates what the `image` crate does.

use vstd::prelude::*;
use image::codecs::png::{CompressionType, FilterType, PngEncoder};
use image::{DynamicImage, ImageError, Rgba, RgbaImage};
use crate::texel::Texel;
use crate::raster::{grid, Raster};

verus! {

#[verifier::external_type_specification]
#[verifier::external_body]
pub struct ExDynamicImage(DynamicImage);

#[verifier::external_type_specification]
#[verifier::external_body]
pub struct ExImageError(ImageError);

/// An 8-bit RGBA buffer of the `image` crate.
#[verifier::external_body]
pub struct Canvas {
    inner: RgbaImage,
}

/// The width that `ImageBuffer::width` reports.
pub uninterp spec fn canvas_width(canvas: Canvas) -> nat;

/// The height that `ImageBuffer::height` reports.
pub uninterp spec fn canvas_height(canvas: Canvas) -> nat;

/// The pixel that `ImageBuffer::get_pixel` yields for each coordinate.
pub uninterp spec fn canvas_pixels(canvas: Canvas) -> Map<(int, int), Texel>;

impl View for Canvas {
    type V = Raster;

    /// The raster that the buffer holds.
    open spec fn view(&self) -> Raster {
        Raster {
            width: canvas_width(*self),
            height: canvas_height(*self),
            pixels: Map::new(
                |c: (int, int)| grid(canvas_width(*self), canvas_height(*self)).contains(c),
                |c: (int, int)| canvas_pixels(*self)[c],
            ),
        }
    }
}

/// The raster of a canvas holds a pixel exactly for the coordinates inside
/// its width and height, so the laws of dilation hold of it.
pub proof fn canvas_raster_is_wf(canvas: Canvas)
    ensures
        canvas@.wf(),
{
}

/// `ImageBuffer::width`: the number of columns.
#[verifier::external_body]
pub(crate) fn width_of(canvas: &Canvas) -> (w: u32)
    ensures
        w == canvas_width(*canvas),
{
    canvas.inner.width()
}

/// `ImageBuffer::height`: the number of rows.
#[verifier::external_body]
pub(crate) fn height_of(canvas: &Canvas) -> (h: u32)
    ensures
        h == canvas_height(*canvas),
{
    canvas.inner.height()
}

/// `ImageBuffer::get_pixel`: the pixel at `(x, y)`. The crate panics outside
/// the buffer, hence the bounds.
#[verifier::external_body]
pub(crate) fn pixel_at(canvas: &Canvas, x: u32, y: u32) -> (p: Texel)
    requires
        x < canvas_width(*canvas),
        y < canvas_height(*canvas),
    ensures
        p == canvas_pixels(*canvas)[(x as int, y as int)],
{
    let found = canvas.inner.get_pixel(x, y);
    Texel { r: found.0[0], g: found.0[1], b: found.0[2], a: found.0[3] }
}

/// `ImageBuffer::put_pixel`: replaces the pixel at `(x, y)` and nothing
/// else. The crate panics outside the buffer, hence the bounds.
#[verifier::external_body]
pub(crate) fn set_pixel(canvas: &mut Canvas, x: u32, y: u32, p: Texel)
    requires
        x < canvas_width(*old(canvas)),
        y < canvas_height(*old(canvas)),
    ensures
        canvas_width(*final(canvas)) == canvas_width(*old(canvas)),
        canvas_height(*final(canvas)) == canvas_height(*old(canvas)),
        canvas_pixels(*final(canvas)) == canvas_pixels(*old(canvas)).insert(
            (x as int, y as int),
            p,
        ),
{
    canvas.inner.put_pixel(x, y, Rgba([p.r, p.g, p.b, p.a]));
}

/// `ImageBuffer::clone`: a buffer of the same size with the same pixels.
#[verifier::external_body]
pub(crate) fn copy_of(canvas: &Canvas) -> (copy: Canvas)
    ensures
        canvas_width(copy) == canvas_width(*canvas),
        canvas_height(copy) == canvas_height(*canvas),
        canvas_pixels(copy) == canvas_pixels(*canvas),
{
    Canvas { inner: canvas.inner.clone() }
}

/// `ImageBuffer::new`: a buffer of the given size whose channels are all
/// zero. The crate panics when four bytes per pixel do not fit in a vector,
/// hence the bound.
#[verifier::external_body]
pub(crate) fn blank(width: u32, height: u32) -> (canvas: Canvas)
    requires
        4 * (width * height) <= isize::MAX,
    ensures
        canvas@ == Raster::blank(width as nat, height as nat),
{
    Canvas { inner: RgbaImage::new(width, height) }
}

/// What `DynamicImage::to_rgba8` makes of an image: its pixels as 8-bit
/// RGBA.
pub uninterp spec fn rgba_rendering(img: DynamicImage) -> Raster;

/// `DynamicImage::to_rgba8`: a copy of the image as an 8-bit RGBA buffer.
#[verifier::external_body]
pub(crate) fn to_rgba8(img: &DynamicImage) -> (canvas: Canvas)
    ensures
        canvas@ == rgba_rendering(*img),
{
    Canvas { inner: img.to_rgba8() }
}

/// `DynamicImage::ImageRgba8`: the image that holds the buffer as it is, so
/// that `to_rgba8` gives the same pixels back.
#[verifier::external_body]
pub(crate) fn into_dynamic(canvas: Canvas) -> (img: DynamicImage)
    ensures
        rgba_rendering(img) == canvas@,
{
    DynamicImage::ImageRgba8(canvas.inner)
}

/// `image::load_from_memory`: guesses the format and decodes. Which bytes
/// decode, and to what, depends on the decoders that the process has
/// registered, so nothing is claimed of the result.
#[verifier::external_body]
pub(crate) fn load_from_memory(bytes: &[u8]) -> (loaded: Result<DynamicImage, ImageError>) {
    image::load_from_memory(bytes)
}

/// The bytes that `PngEncoder`, at best compression with the adaptive
/// filter, writes for an 8-bit RGBA buffer, or `None` where it fails.
pub uninterp spec fn png_encoding(r: Raster) -> Option<Seq<u8>>;

/// `ImageBuffer::write_with_encoder` with a `PngEncoder` made by
/// `new_with_quality`: the buffer as a PNG file in memory.
#[verifier::external_body]
pub(crate) fn encode_png(canvas: &Canvas) -> (encoded: Result<Vec<u8>, ImageError>)
    ensures
        match encoded {
            Ok(bytes) => png_encoding(canvas@) == Some(bytes@),
            Err(_) => png_encoding(canvas@) is None,
        },
{
    let mut bytes = Vec::new();
    let encoder = PngEncoder::new_with_quality(
        &mut bytes,
        CompressionType::Best,
        FilterType::Adaptive,
    );
    canvas.inner.write_with_encoder(encoder)?;
    Ok(bytes)
}

/// The text that `ImageError` shows through `Display`.
#[verifier::external_body]
pub(crate) fn error_text(error: &ImageError) -> (text: String) {
    error.to_string()
}

impl Canvas {
    /// A canvas of the given size with every channel zero, or `None` where
    /// its four bytes per pixel cannot be held in memory.
    pub fn new(width: u32, height: u32) -> (made: Option<Canvas>)
        ensures
            made is Some <==> 4 * (width * height) <= isize::MAX,
            made matches Some(canvas) ==> canvas@ == Raster::blank(width as nat, height as nat),
    {
        assert(width * height <= 0xffff_ffff * 0xffff_ffff) by (nonlinear_arith)
            requires
                width <= 0xffff_ffff,
                height <= 0xffff_ffff,
        ;
        let cells: u64 = (width as u64) * (height as u64);
        if cells <= (isize::MAX as u64) / 4 {
            Some(blank(width, height))
        } else {
            None
        }
    }

    /// The number of columns.
    pub fn width(&self) -> (w: u32)
        ensures
            w == self@.width,
    {
        width_of(self)
    }

    /// The number of rows.
    pub fn height(&self) -> (h: u32)
        ensures
            h == self@.height,
    {
        height_of(self)
    }

    /// The pixel at `(x, y)`, or `None` outside the canvas.
    pub fn get(&self, x: u32, y: u32) -> (found: Option<Texel>)
        ensures
            found == if self@.contains(x as int, y as int) {
                Some(self@.at(x as int, y as int))
            } else {
                None
            },
    {
        if x < width_of(self) && y < height_of(self) {
            assert(grid(self@.width, self@.height).contains((x as int, y as int)));
            Some(pixel_at(self, x, y))
        } else {
            None
        }
    }

    /// Replaces the pixel at `(x, y)`. Outside the canvas nothing changes and
    /// the result is `false`.
    pub fn put(&mut self, x: u32, y: u32, p: Texel) -> (inside: bool)
        ensures
            inside == old(self)@.contains(x as int, y as int),
            final(self)@ == if inside {
                old(self)@.with_pixel(x as int, y as int, p)
            } else {
                old(self)@
            },
    {
        if x < width_of(self) && y < height_of(self) {
            set_pixel(self, x, y, p);
            assert(self@ =~= old(self)@.with_pixel(x as int, y as int, p));
            true
        } else {
            false
        }
    }
}

} // verus!
