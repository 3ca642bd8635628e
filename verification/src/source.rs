//! The image decode collaborator: raw encoded image bytes in, RGB pixel
//! grid out. The codec itself is the `image` crate; everything downstream
//! works on the plain `PixelGrid` it fills.

use vstd::prelude::*;

use crate::errors::TranscodeError;
use crate::grid::PixelGrid;

verus! {

/// The error type of the image decoder.
#[verifier::external_type_specification]
#[verifier::external_body]
pub struct ExImageError(image::ImageError);

/// Relies on `image::load_from_memory` and `DynamicImage::to_rgb8`: a
/// successful decode yields the image's dimensions (which fit in `u32`) and
/// its raw RGB8 buffer, which holds exactly three bytes per pixel in
/// row-major order.
#[verifier::external_body]
pub(crate) fn decode_rgb(bytes: &Vec<u8>) -> (r: Result<PixelGrid, image::ImageError>)
    ensures
        r matches Ok(g) ==> g.wf(),
{
    let img = image::load_from_memory(bytes.as_slice())?;
    let rgb = img.to_rgb8();
    let width = rgb.width() as usize;
    let height = rgb.height() as usize;
    Ok(PixelGrid { width, height, data: rgb.into_raw() })
}

/// Decodes raw image bytes into an RGB pixel grid, reporting any codec
/// failure as `SourceUnreadable`.
pub fn load_pixels(bytes: &Vec<u8>) -> (r: Result<PixelGrid, TranscodeError>)
    ensures
        r matches Ok(g) ==> g.wf(),
        r matches Err(e) ==> e == TranscodeError::SourceUnreadable,
{
    match decode_rgb(bytes) {
        Ok(g) => Ok(g),
        Err(_) => Err(TranscodeError::SourceUnreadable),
    }
}

} // verus!
