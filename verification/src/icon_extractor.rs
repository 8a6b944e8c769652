//! Icon raster processing: turns the raw bitmaps the OS returns for a
//! launch target into a portable PNG asset or an inline data URI.
//!
//! The OS query itself (icon handle, color and mask bitmaps, device
//! context) is platform work the shell performs; what it hands over is a
//! pair of plain byte buffers, and everything from there - byte-order
//! correction, alpha reconstruction from the mask, asset naming - is
//! verified.  Only the PNG and base64 encodings run outside, behind the
//! named results of `codec`.

use vstd::prelude::*;
use crate::CoreError;
use crate::codec::b64_encode;
use crate::codec::b64_encode_of;
use crate::codec::png_encode_rgba;
use crate::codec::png_of;

verus! {

/// A native icon's raw bitmaps as the OS returned them: the color bitmap
/// and the monochrome mask, both requested as 32-bit top-down pixel data of
/// the same geometry.
pub struct IconBitmap {
    pub width: u32,
    pub height: u32,
    /// The color bitmap's bytes, 4 per pixel in BGRA order.
    pub pixels: Vec<u8>,
    /// The mask bitmap's bytes in the same layout: 0 marks an opaque pixel,
    /// 255 a transparent one.
    pub mask: Vec<u8>,
}

/// The magnitude of an OS-reported bitmap dimension.
pub open spec fn dimension_magnitude(raw: int) -> int {
    if raw >= 0 {
        raw
    } else {
        -raw
    }
}

/// The dimensions the extractor works with: the magnitude of each reported
/// value, with a 32x32 fallback when either is zero.  The shell's icon
/// query applies this to the OS-reported bitmap extents before it
/// allocates buffers and requests pixel data.
pub fn effective_dimensions(raw_width: i32, raw_height: i32) -> (r: (u32, u32))
    ensures
        ({
            let w = dimension_magnitude(raw_width as int);
            let h = dimension_magnitude(raw_height as int);
            if w == 0 || h == 0 {
                r.0 == 32 && r.1 == 32
            } else {
                r.0 == w && r.1 == h
            }
        }),
{
    let w: u32 = if raw_width >= 0 {
        raw_width as u32
    } else {
        (-(raw_width as i64)) as u32
    };
    let h: u32 = if raw_height >= 0 {
        raw_height as u32
    } else {
        (-(raw_height as i64)) as u32
    };
    if w == 0 || h == 0 {
        (32, 32)
    } else {
        (w, h)
    }
}

/// One byte of the corrected raster.  Within each 4-byte pixel the 1st and
/// 3rd bytes trade places (BGRA to RGBA); the alpha byte stays when the
/// color bitmap carried real alpha, and is otherwise rebuilt as
/// `255 - mask`, the mask marking opaque pixels with 0.  A pixel beyond the
/// mask counts as opaque, matching a mask buffer the OS left zeroed.
pub open spec fn processed_byte(p: Seq<u8>, m: Seq<u8>, i: int) -> u8 {
    let base = 4 * (i / 4);
    if i % 4 == 0 {
        p[base + 2]
    } else if i % 4 == 2 {
        p[base]
    } else if i % 4 == 3 {
        if p[base + 3] == 0 {
            (255 - (if base < m.len() {
                m[base] as int
            } else {
                0
            })) as u8
        } else {
            p[base + 3]
        }
    } else {
        p[i]
    }
}

/// The corrected RGBA raster built from a BGRA color buffer and its mask.
pub open spec fn rgba_of(p: Seq<u8>, m: Seq<u8>) -> Seq<u8> {
    Seq::new(p.len(), |i: int| processed_byte(p, m, i))
}

/// The byte length a 32-bit-per-pixel buffer of the given dimensions must
/// have.
pub open spec fn geometry_len(width: u32, height: u32) -> int {
    4 * ((width as int) * (height as int))
}

/// Whether a buffer length matches the bitmap geometry.
fn geometry_matches(width: u32, height: u32, len: usize) -> (r: bool)
    ensures
        r == (len as int == geometry_len(width, height)),
{
    proof {
        assert((width as int) * (height as int) <= 0xffff_ffff * 0xffff_ffff) by (nonlinear_arith)
            requires
                width as int <= 0xffff_ffff,
                height as int <= 0xffff_ffff,
        ;
    }
    let wh: u64 = (width as u64) * (height as u64);
    (len as u64) % 4 == 0 && (len as u64) / 4 == wh
}

/// Corrects a color buffer in place: swaps each pixel's 1st and 3rd bytes
/// (the OS returns BGR-ordered color) and reconstructs alpha from the mask
/// wherever the color bitmap's own alpha byte is zero.
///
/// Pixels whose alpha was already nonzero keep it untouched; pixels whose
/// alpha was zero receive `255 - mask`.
pub fn process_icon_pixels(pixels: &mut Vec<u8>, mask: &Vec<u8>)
    requires
        old(pixels)@.len() % 4 == 0,
    ensures
        final(pixels)@ == rgba_of(old(pixels)@, mask@),
{
    let n = pixels.len();
    let mut i: usize = 0;
    while i + 3 < n
        invariant
            n == pixels@.len(),
            n == old(pixels)@.len(),
            n % 4 == 0,
            i % 4 == 0,
            i <= n,
            forall|j: int| 0 <= j < i ==> pixels@[j] == processed_byte(old(pixels)@, mask@, j),
            forall|j: int| i <= j < n ==> pixels@[j] == old(pixels)@[j],
        decreases n - i,
    {
        let blue = pixels[i];
        let red = pixels[i + 2];
        pixels.set(i, red);
        pixels.set(i + 2, blue);
        if pixels[i + 3] == 0 {
            let mask_value = if i < mask.len() {
                mask[i]
            } else {
                0
            };
            pixels.set(i + 3, 255 - mask_value);
        }
        i += 4;
    }
    assert(i == n);
    assert(pixels@ =~= rgba_of(old(pixels)@, mask@));
}

/// Pairs an encoder's answer with the entry's derived asset name: encoded
/// bytes become the `<entryId>.png` asset, and an encoder failure passes
/// through.  This is where the asset's shape is pinned for every possible
/// answer of the encoder.
pub fn package_icon_asset(app_id: &str, encoded: Result<Vec<u8>, CoreError>) -> (r: Result<
    (String, Vec<u8>),
    CoreError,
>)
    ensures
        encoded matches Ok(b) ==> (r matches Ok(p) && p.0@ == app_id@ + ".png"@ && p.1 == b),
        encoded matches Err(e) ==> r matches Err(e2) && e2 == e,
{
    match encoded {
        Ok(bytes) => Ok((String::from_str(app_id).concat(".png"), bytes)),
        Err(e) => Err(e),
    }
}

/// An encoded icon's inline legacy form: the PNG as a
/// `data:image/png;base64,` URI, or nothing where the raster is too large
/// to encode safely.
pub fn inline_icon_uri(png: &Vec<u8>) -> (r: Option<String>)
    ensures
        (r is Some) == (png@.len() <= usize::MAX / 8),
        r matches Some(u) ==> u@ == data_uri_of(png@),
{
    if png.len() > usize::MAX / 8 {
        return None;
    }
    let encoded = b64_encode(png);
    let mut uri = String::from_str("data:image/png;base64,");
    uri.append(encoded.as_str());
    Some(uri)
}

/// Turns an icon's raw bitmaps into the entry's PNG asset: the corrected
/// raster encoded as PNG, named `<entryId>.png` so deletion never needs
/// separate bookkeeping.  The shell writes the returned bytes under the
/// returned name in the asset directory.
///
/// Fails exactly when the pixel buffer does not match the bitmap geometry
/// or a dimension is zero, and then with an extraction error: a
/// well-formed bitmap is owed its asset.
pub fn extract_icon_to_file(bitmap: IconBitmap, app_id: &str) -> (r: Result<
    (String, Vec<u8>),
    CoreError,
>)
    ensures
        r matches Ok(p) ==> {
            &&& p.0@ == app_id@ + ".png"@
            &&& p.1@ == png_of(bitmap.width, bitmap.height, rgba_of(bitmap.pixels@, bitmap.mask@))
            &&& bitmap.pixels@.len() == geometry_len(bitmap.width, bitmap.height)
        },
        r matches Err(e) ==> e is ExtractionError,
        bitmap.pixels@.len() != geometry_len(bitmap.width, bitmap.height) ==> r is Err,
        bitmap.width == 0 || bitmap.height == 0 ==> r is Err,
        bitmap.pixels@.len() == geometry_len(bitmap.width, bitmap.height) && bitmap.width > 0
            && bitmap.height > 0 ==> r is Ok,
{
    if !geometry_matches(bitmap.width, bitmap.height, bitmap.pixels.len()) {
        return Err(
            CoreError::ExtractionError(
                String::from_str("pixel buffer does not match the bitmap geometry"),
            ),
        );
    }
    let IconBitmap { width, height, mut pixels, mask } = bitmap;
    process_icon_pixels(&mut pixels, &mask);
    package_icon_asset(app_id, png_encode_rgba(width, height, &pixels))
}

/// The bytes of the built-in placeholder: a 1x1 transparent PNG.
pub open spec fn placeholder_png_bytes() -> Seq<u8> {
    seq![
        0x89u8, 0x50, 0x4E, 0x47, 0x0D, 0x0A, 0x1A, 0x0A,
        0x00, 0x00, 0x00, 0x0D, 0x49, 0x48, 0x44, 0x52,
        0x00, 0x00, 0x00, 0x01, 0x00, 0x00, 0x00, 0x01,
        0x08, 0x06, 0x00, 0x00, 0x00, 0x1F, 0x15, 0xC4,
        0x89, 0x00, 0x00, 0x00, 0x0A, 0x49, 0x44, 0x41,
        0x54, 0x78, 0x9C, 0x63, 0x00, 0x01, 0x00, 0x00,
        0x05, 0x00, 0x01, 0x0D, 0x0A, 0x2D, 0xB4, 0x00,
        0x00, 0x00, 0x00, 0x49, 0x45, 0x4E, 0x44, 0xAE,
        0x42, 0x60, 0x82,
    ]
}

/// A PNG's inline legacy form: a `data:image/png;base64,` URI.
pub open spec fn data_uri_of(png: Seq<u8>) -> Seq<char> {
    "data:image/png;base64,"@ + b64_encode_of(png)
}

/// The inline form of the built-in placeholder.
pub open spec fn placeholder_uri() -> Seq<char> {
    data_uri_of(placeholder_png_bytes())
}

/// The built-in fallback of the inline path: the 1x1 transparent PNG as a
/// data URI.
pub fn get_placeholder_icon() -> (r: String)
    ensures
        r@ == placeholder_uri(),
{
    let png_bytes: Vec<u8> = vec![
        0x89u8, 0x50, 0x4E, 0x47, 0x0D, 0x0A, 0x1A, 0x0A,
        0x00, 0x00, 0x00, 0x0D, 0x49, 0x48, 0x44, 0x52,
        0x00, 0x00, 0x00, 0x01, 0x00, 0x00, 0x00, 0x01,
        0x08, 0x06, 0x00, 0x00, 0x00, 0x1F, 0x15, 0xC4,
        0x89, 0x00, 0x00, 0x00, 0x0A, 0x49, 0x44, 0x41,
        0x54, 0x78, 0x9C, 0x63, 0x00, 0x01, 0x00, 0x00,
        0x05, 0x00, 0x01, 0x0D, 0x0A, 0x2D, 0xB4, 0x00,
        0x00, 0x00, 0x00, 0x49, 0x45, 0x4E, 0x44, 0xAE,
        0x42, 0x60, 0x82,
    ];
    assert(png_bytes@ =~= placeholder_png_bytes());
    let encoded = b64_encode(&png_bytes);
    let mut uri = String::from_str("data:image/png;base64,");
    uri.append(encoded.as_str());
    uri
}

/// The inline legacy path: the icon as a data URI.  On any failure - the
/// OS query produced no bitmaps, the buffer does not match the geometry,
/// a dimension is zero, or the encoding is too large to wrap - it returns
/// the built-in placeholder instead, so callers on this path never see an
/// error; a well-formed bitmap of encodable size is owed its real URI.
pub fn extract_icon_from_exe(bitmap: Option<IconBitmap>) -> (r: String)
    ensures
        bitmap is None ==> r@ == placeholder_uri(),
        bitmap matches Some(b) && b.pixels@.len() != geometry_len(b.width, b.height) ==> r@
            == placeholder_uri(),
        r@ == placeholder_uri() || (bitmap matches Some(b) && b.pixels@.len() == geometry_len(
            b.width,
            b.height,
        ) && r@ == data_uri_of(png_of(b.width, b.height, rgba_of(b.pixels@, b.mask@)))),
        bitmap matches Some(b) ==> (b.width == 0 || b.height == 0 ==> r@ == placeholder_uri()),
        bitmap matches Some(b) ==> (b.pixels@.len() == geometry_len(b.width, b.height)
            && b.width > 0 && b.height > 0 && png_of(
            b.width,
            b.height,
            rgba_of(b.pixels@, b.mask@),
        ).len() <= usize::MAX / 8 ==> r@ == data_uri_of(
            png_of(b.width, b.height, rgba_of(b.pixels@, b.mask@)),
        )),
{
    let bitmap = match bitmap {
        Some(b) => b,
        None => {
            return get_placeholder_icon();
        },
    };
    if !geometry_matches(bitmap.width, bitmap.height, bitmap.pixels.len()) {
        return get_placeholder_icon();
    }
    let IconBitmap { width, height, mut pixels, mask } = bitmap;
    process_icon_pixels(&mut pixels, &mask);
    let png = match png_encode_rgba(width, height, &pixels) {
        Ok(bytes) => bytes,
        Err(_) => {
            return get_placeholder_icon();
        },
    };
    match inline_icon_uri(&png) {
        Some(uri) => uri,
        None => get_placeholder_icon(),
    }
}

} // verus!
