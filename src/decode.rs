use vstd::prelude::*;

use crate::gray::GrayscaleImage;

verus! {

/// Width, height and row-major 8-bit luma buffer of the image encoded in
/// `bytes` (format guessed from its contents), or `None` where it does not
/// decode.
pub uninterp spec fn decoded_luma(bytes: Seq<u8>) -> Option<(u32, u32, Seq<u8>)>;

/// Relies on `image::load_from_memory` and `DynamicImage::to_luma8`: the
/// decoded image, converted to 8-bit luma, depends on the bytes alone; the
/// error is reported as its message.
#[verifier::external_body]
fn decode_luma(bytes: &[u8]) -> (r: Result<(u32, u32, Vec<u8>), String>)
    ensures
        r matches Ok((w, h, p)) ==> decoded_luma(bytes@) == Some((w, h, p@)),
        r is Err ==> decoded_luma(bytes@) is None,
{
    match image::load_from_memory(bytes) {
        Ok(img) => {
            let gray = img.to_luma8();
            Ok((gray.width(), gray.height(), gray.into_raw()))
        },
        Err(e) => Err(e.to_string()),
    }
}

/// Why encoded bytes gave no image.
#[derive(Clone, Debug, PartialEq, Eq)]
pub enum DecodeError {
    /// The bytes are not an image in a supported format; the decoder's message.
    Invalid(String),
    /// The image has no pixels.
    Empty,
}

/// Turns a decoded luma buffer into an image; `None` when a side is zero or
/// the buffer does not hold exactly one byte per pixel.
pub fn image_from_luma(width: u32, height: u32, pixels: Vec<u8>) -> (r: Option<GrayscaleImage>)
    ensures
        r is Some <==> (width > 0 && height > 0 && pixels@.len() == width * height),
        r matches Some(img) ==> {
            &&& img.wf()
            &&& img.spec_width() == width
            &&& img.spec_height() == height
            &&& img.view_pixels() == pixels@
        },
{
    GrayscaleImage::from_raw(width as usize, height as usize, pixels)
}

/// Decodes an encoded image (PNG among others) to grayscale.
pub fn decode_image(bytes: &Vec<u8>) -> (r: Result<GrayscaleImage, DecodeError>)
    ensures
        r matches Ok(img) ==> {
            &&& img.wf()
            &&& decoded_luma(bytes@) == Some(
                (img.spec_width() as u32, img.spec_height() as u32, img.view_pixels()),
            )
        },
        r matches Err(DecodeError::Invalid(_)) ==> decoded_luma(bytes@) is None,
        r matches Err(DecodeError::Empty) ==> decoded_luma(bytes@) matches Some((w, h, p)) && !(w
            > 0 && h > 0 && p.len() == w * h),
        decoded_luma(bytes@) matches Some((w, h, p)) ==> (r is Ok <==> (w > 0 && h > 0 && p.len()
            == w * h)),
{
    match decode_luma(bytes.as_slice()) {
        Ok((w, h, pixels)) => match image_from_luma(w, h, pixels) {
            Some(img) => Ok(img),
            None => Err(DecodeError::Empty),
        },
        Err(msg) => Err(DecodeError::Invalid(msg)),
    }
}

} // verus!
