//! Trusted bindings to the outside codecs the catalog relies on: base64
//! (inline legacy icons), PNG encoding (icon assets), and fresh-id
//! generation.
//!
//! Each binding names or states what the outside call returns; everything
//! decided from those results is verified in the modules that call them.

use base64::Engine;
use vstd::prelude::*;

verus! {

/// The base64 (standard alphabet, padded) encoding of a byte sequence.
pub uninterp spec fn b64_encode_of(bytes: Seq<u8>) -> Seq<char>;

/// Relies on base64's `STANDARD` engine: `encode` is a function of the
/// input bytes alone.  The bound keeps the engine's output-size
/// computation from overflowing, the one input on which it panics.
#[verifier::external_body]
pub(crate) fn b64_encode(bytes: &Vec<u8>) -> (r: String)
    requires
        4 * bytes@.len() + 8 <= 3 * (usize::MAX as int),
    ensures
        r@ == b64_encode_of(bytes@),
{
    base64::engine::general_purpose::STANDARD.encode(bytes)
}

/// The bytes that base64's `STANDARD` engine decodes a text to, where it
/// accepts the text at all.
pub uninterp spec fn b64_decode_of(s: Seq<char>) -> Seq<u8>;

/// Whether base64's `STANDARD` engine accepts a text: like the decoding
/// itself, a function of the input alone.
pub uninterp spec fn b64_accepts(s: Seq<char>) -> bool;

/// Relies on base64's `STANDARD` engine: `decode` is a function of the
/// input text alone, it accepts or rejects deterministically, and it
/// never panics.
#[verifier::external_body]
pub(crate) fn b64_decode(s: &str) -> (r: Option<Vec<u8>>)
    ensures
        (r is Some) == b64_accepts(s@),
        r matches Some(b) ==> b@ == b64_decode_of(s@),
{
    base64::engine::general_purpose::STANDARD.decode(s).ok()
}

/// The PNG encoding of an RGBA8 raster of the given dimensions.
pub uninterp spec fn png_of(width: u32, height: u32, rgba: Seq<u8>) -> Seq<u8>;

/// Relies on image's `write_buffer_with_format` with the PNG format: the
/// encoding is a function of the dimensions and bytes alone.  The encoder
/// asserts that the buffer matches the dimensions, so the contract asks
/// for that geometry; with it, only a zero dimension is refused (as the
/// error case), since the writer is an in-memory buffer that cannot fail.
#[verifier::external_body]
pub(crate) fn png_encode_rgba(width: u32, height: u32, rgba: &Vec<u8>) -> (r: Result<
    Vec<u8>,
    crate::CoreError,
>)
    requires
        rgba@.len() == 4 * ((width as int) * (height as int)),
    ensures
        r matches Ok(b) ==> b@ == png_of(width, height, rgba@),
        width > 0 && height > 0 ==> r is Ok,
        width == 0 || height == 0 ==> r is Err,
        r matches Err(e) ==> e is ExtractionError,
{
    let mut out: Vec<u8> = Vec::new();
    let mut cursor = std::io::Cursor::new(&mut out);
    match image::write_buffer_with_format(
        &mut cursor,
        rgba,
        width,
        height,
        image::ExtendedColorType::Rgba8,
        image::ImageFormat::Png,
    ) {
        Ok(()) => Ok(out),
        Err(e) => Err(crate::CoreError::ExtractionError(format!("PNG encoding failed: {}", e))),
    }
}

/// Relies on uuid's `Uuid::new_v4` and its display form: a fresh random
/// version-4 id, hyphenated, 36 characters.  Nothing more can be promised
/// of a random value.
#[verifier::external_body]
pub(crate) fn fresh_id() -> (r: String)
    ensures
        r@.len() == 36,
{
    uuid::Uuid::new_v4().to_string()
}

} // verus!
