//! Thumbnail generation: decode the source bytes, scale them down to fit
//! the bounding box, and encode the result as JPEG, through the image
//! crate. The pixel data never leaves the one call below; what the
//! pipeline produces is named, so that callers can say exactly when it
//! succeeds and what bytes it yields.

use vstd::prelude::*;

verus! {

/// Why thumbnail generation failed: the source bytes were not a decodable
/// image, or the scaled image could not be encoded.
pub enum ThumbGenError {
    Decode(String),
    Encode(String),
}

/// Whether `image::load_from_memory` decodes these bytes. Left
/// uninterpreted: decoding is a function of the bytes alone, and which
/// byte strings are well-formed images is the business of the image
/// library, not of this crate.
pub uninterp spec fn decodes_ok(bytes: Seq<u8>) -> bool;

/// Whether the whole pipeline — decode, scale down to fit `size` x `size`,
/// encode as JPEG — succeeds on these bytes. A function of the bytes and
/// the size alone.
pub uninterp spec fn thumb_jpeg_ok(bytes: Seq<u8>, size: u32) -> bool;

/// The JPEG bytes the pipeline yields when it succeeds. A function of the
/// bytes and the size alone.
pub uninterp spec fn thumb_jpeg_of(bytes: Seq<u8>, size: u32) -> Seq<u8>;

/// Relies on `image::load_from_memory`, `DynamicImage::thumbnail` and
/// `DynamicImage::write_to` with `ImageFormat::Jpeg`: decodes a raster
/// image from bytes (guessing the format by content), scales it down to
/// the largest size that fits within `size` x `size` preserving its aspect
/// ratio (never below one pixel on a side), and encodes the result as
/// JPEG. Each step is deterministic on its input, so the outcome and the
/// produced bytes are functions of `bytes` and `size` alone; a decode
/// failure and an encode failure are told apart in the error.
#[verifier::external_body]
pub(crate) fn make_thumbnail_jpeg(bytes: &[u8], size: u32) -> (r: Result<Vec<u8>, ThumbGenError>)
    ensures
        r is Ok <==> thumb_jpeg_ok(bytes@, size),
        r is Ok ==> decodes_ok(bytes@),
        r matches Ok(v) ==> v@ == thumb_jpeg_of(bytes@, size),
        r matches Err(e) ==> ((e is Decode) <==> !decodes_ok(bytes@)),
{
    let img = match image::load_from_memory(bytes) {
        Ok(img) => img,
        Err(e) => return Err(ThumbGenError::Decode(format!("{}", e))),
    };
    let thumb = img.thumbnail(size, size);
    let mut buffer = std::io::Cursor::new(Vec::new());
    match thumb.write_to(&mut buffer, image::ImageFormat::Jpeg) {
        Ok(()) => Ok(buffer.into_inner()),
        Err(e) => Err(ThumbGenError::Encode(format!("{}", e))),
    }
}

} // verus!
