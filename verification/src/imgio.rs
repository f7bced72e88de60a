//! Trusted boundary to the `image` crate: the opaque decoded-image type,
//! and the two pure byte conversions the cache pipeline needs (decoding
//! fetched bytes, encoding a page for the disk cache).

use std::io::Cursor;
use vstd::prelude::*;

verus! {

#[verifier::external_type_specification]
#[verifier::external_body]
pub struct ExDynamicImage(image::DynamicImage);

/// Relies on `image::DynamicImage`'s `Clone` impl, which copies every
/// pixel buffer: the clone is the same image.
pub assume_specification[ <image::DynamicImage as Clone>::clone ](
    img: &image::DynamicImage,
) -> (r: image::DynamicImage)
    ensures
        r == *img,
;

/// Relies on `image::ImageReader` with format guessing: turns raw bytes
/// into a decoded image, or `None` when the bytes are not a readable
/// image. Nothing further is assumed of the result; callers treat it as
/// an arbitrary decoded image.
#[verifier::external_body]
pub(crate) fn decode_image(bytes: &[u8]) -> Option<image::DynamicImage> {
    image::ImageReader::new(Cursor::new(bytes)).with_guessed_format().ok()?.decode().ok()
}

/// Relies on `image::DynamicImage::write_to` with the JPEG format: encodes
/// the image into a fresh byte buffer, or `None` when the encoder refuses
/// it. Nothing further is assumed of the bytes.
#[verifier::external_body]
pub(crate) fn encode_jpeg(img: &image::DynamicImage) -> Option<Vec<u8>> {
    let mut buf = Cursor::new(Vec::new());
    match img.write_to(&mut buf, image::ImageFormat::Jpeg) {
        Ok(()) => Some(buf.into_inner()),
        Err(_) => None,
    }
}

} // verus!
