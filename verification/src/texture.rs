//! Fixing one texture held in memory: encoded bytes in, PNG bytes out.

use vstd::prelude::*;
use image::{DynamicImage, ImageError};
use crate::canvas::{encode_png, error_text, load_from_memory, png_encoding, rgba_rendering, to_rgba8};
use crate::dilation::dilated;
use crate::engine::process_image;
use crate::raster::Raster;

verus! {

/// Why a texture could not be fixed, with the codec's own words.
#[derive(Debug)]
pub enum TextureError {
    /// The input bytes are no image that the codec can read.
    Load(String),
    /// The codec could not write the result as PNG.
    Save(String),
}

/// Dilates what the decoder made of the input and encodes it as PNG. A
/// failed decoding is a `Load` error; the result is a `Save` error exactly
/// where the encoder rejects the dilated image.
pub fn fix_loaded(loaded: Result<DynamicImage, ImageError>, padding: u32) -> (fixed: Result<
    Vec<u8>,
    TextureError,
>)
    ensures
        match loaded {
            Err(_) => fixed matches Err(TextureError::Load(_)),
            Ok(img) => rgba_rendering(img).wf() && match png_encoding(
                dilated(rgba_rendering(img), padding as nat),
            ) {
                Some(bytes) => fixed matches Ok(out) && out@ == bytes,
                None => fixed matches Err(TextureError::Save(_)),
            },
        },
{
    match loaded {
        Err(error) => Err(TextureError::Load(error_text(&error))),
        Ok(img) => {
            let fixed = process_image(img, padding);
            let canvas = to_rgba8(&fixed);
            match encode_png(&canvas) {
                Ok(bytes) => Ok(bytes),
                Err(error) => Err(TextureError::Save(error_text(&error))),
            }
        },
    }
}

/// Decodes `image_data`, dilates the image by `padding` and returns it as
/// PNG. Whether the bytes decode, and to which image, is the decoder's to
/// say: a `Load` error is its refusal. Whatever image it yields, bytes that
/// come back are the PNG encoding of that image dilated, and a `Save` error
/// comes back only where that image dilated has no PNG encoding.
pub fn fix_texture(image_data: &[u8], padding: u32) -> (fixed: Result<Vec<u8>, TextureError>)
    ensures
        fixed matches Ok(out) ==> exists|r: Raster|
            r.wf() && #[trigger] png_encoding(dilated(r, padding as nat)) == Some(out@),
        fixed matches Err(TextureError::Save(_)) ==> exists|r: Raster|
            r.wf() && (#[trigger] png_encoding(dilated(r, padding as nat))) is None,
{
    let loaded = load_from_memory(image_data);
    let ghost decoded = loaded;
    let fixed = fix_loaded(loaded, padding);
    proof {
        if decoded is Ok {
            let r = rgba_rendering(decoded->Ok_0);
            if fixed is Ok {
                assert(r.wf() && png_encoding(dilated(r, padding as nat)) == Some(fixed->Ok_0@));
            } else {
                assert(r.wf() && png_encoding(dilated(r, padding as nat)) is None);
            }
        }
    }
    fixed
}

} // verus!
