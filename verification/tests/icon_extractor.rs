use base64::Engine;
use program_manager::icon_extractor::{
    effective_dimensions, extract_icon_from_exe, extract_icon_to_file, get_placeholder_icon,
    inline_icon_uri, package_icon_asset, process_icon_pixels, IconBitmap,
};
use program_manager::CoreError;

fn placeholder_png_bytes() -> Vec<u8> {
    vec![
        0x89, 0x50, 0x4E, 0x47, 0x0D, 0x0A, 0x1A, 0x0A, 0x00, 0x00, 0x00, 0x0D, 0x49, 0x48, 0x44,
        0x52, 0x00, 0x00, 0x00, 0x01, 0x00, 0x00, 0x00, 0x01, 0x08, 0x06, 0x00, 0x00, 0x00, 0x1F,
        0x15, 0xC4, 0x89, 0x00, 0x00, 0x00, 0x0A, 0x49, 0x44, 0x41, 0x54, 0x78, 0x9C, 0x63, 0x00,
        0x01, 0x00, 0x00, 0x05, 0x00, 0x01, 0x0D, 0x0A, 0x2D, 0xB4, 0x00, 0x00, 0x00, 0x00, 0x49,
        0x45, 0x4E, 0x44, 0xAE, 0x42, 0x60, 0x82,
    ]
}

#[test]
fn test_alpha_reconstruction() {
    // first pixel carries real alpha: mask processing leaves it alone;
    // second pixel's alpha is zero: it receives 255 - mask
    let mut pixels: Vec<u8> = vec![10, 20, 30, 200, 1, 2, 3, 0];
    let mask: Vec<u8> = vec![0, 0, 0, 0, 255, 0, 0, 0];
    process_icon_pixels(&mut pixels, &mask);
    assert_eq!(pixels, vec![30, 20, 10, 200, 3, 2, 1, 0]);
}

#[test]
fn test_alpha_from_mask_opaque() {
    // mask 0 marks an opaque pixel: synthesized alpha is 255
    let mut pixels: Vec<u8> = vec![5, 6, 7, 0];
    let mask: Vec<u8> = vec![0, 0, 0, 0];
    process_icon_pixels(&mut pixels, &mask);
    assert_eq!(pixels, vec![7, 6, 5, 255]);
}

#[test]
fn test_short_mask_counts_as_opaque() {
    let mut pixels: Vec<u8> = vec![5, 6, 7, 0];
    let mask: Vec<u8> = Vec::new();
    process_icon_pixels(&mut pixels, &mask);
    assert_eq!(pixels, vec![7, 6, 5, 255]);
}

#[test]
fn test_effective_dimensions() {
    assert_eq!(effective_dimensions(0, 5), (32, 32));
    assert_eq!(effective_dimensions(5, 0), (32, 32));
    assert_eq!(effective_dimensions(-16, 16), (16, 16));
    assert_eq!(effective_dimensions(2, 3), (2, 3));
    assert_eq!(effective_dimensions(i32::MIN, 1), (2147483648u32, 1));
}

#[test]
fn test_extract_icon_to_file_produces_named_png() {
    let bitmap = IconBitmap {
        width: 2,
        height: 1,
        pixels: vec![10, 20, 30, 200, 1, 2, 3, 0],
        mask: vec![0, 0, 0, 0, 255, 0, 0, 0],
    };
    let (filename, bytes) = extract_icon_to_file(bitmap, "abc-123").unwrap();
    assert_eq!(filename, "abc-123.png");
    let img = image::load_from_memory(&bytes).unwrap().to_rgba8();
    assert_eq!(img.width(), 2);
    assert_eq!(img.height(), 1);
    assert_eq!(img.into_raw(), vec![30, 20, 10, 200, 3, 2, 1, 0]);
}

#[test]
fn test_extract_icon_to_file_rejects_bad_geometry() {
    let bitmap = IconBitmap {
        width: 2,
        height: 2,
        pixels: vec![0; 8],
        mask: vec![0; 8],
    };
    let err = extract_icon_to_file(bitmap, "abc").unwrap_err();
    assert!(matches!(err, CoreError::ExtractionError(_)));
}

#[test]
fn test_inline_extraction_matches_encoder() {
    let bitmap = IconBitmap {
        width: 1,
        height: 1,
        pixels: vec![10, 20, 30, 0],
        mask: vec![0, 0, 0, 0],
    };
    let uri = extract_icon_from_exe(Some(bitmap));
    // the same raster, PNG-encoded the same way, must reproduce the URI
    let rgba: Vec<u8> = vec![30, 20, 10, 255];
    let mut png: Vec<u8> = Vec::new();
    image::write_buffer_with_format(
        &mut std::io::Cursor::new(&mut png),
        &rgba,
        1,
        1,
        image::ExtendedColorType::Rgba8,
        image::ImageFormat::Png,
    )
    .unwrap();
    let expected = format!(
        "data:image/png;base64,{}",
        base64::engine::general_purpose::STANDARD.encode(&png)
    );
    assert_eq!(uri, expected);
}

#[test]
fn test_inline_extraction_without_bitmap_is_placeholder() {
    let uri = extract_icon_from_exe(None);
    let expected = format!(
        "data:image/png;base64,{}",
        base64::engine::general_purpose::STANDARD.encode(&placeholder_png_bytes())
    );
    assert_eq!(uri, expected);
    assert_eq!(uri, get_placeholder_icon());
}

#[test]
fn test_inline_extraction_bad_geometry_is_placeholder() {
    let bitmap = IconBitmap {
        width: 3,
        height: 3,
        pixels: vec![0; 4],
        mask: vec![0; 4],
    };
    assert_eq!(extract_icon_from_exe(Some(bitmap)), get_placeholder_icon());
}

#[test]
fn test_placeholder_decodes_to_transparent_pixel() {
    let uri = get_placeholder_icon();
    let payload = uri.strip_prefix("data:image/png;base64,").unwrap();
    let png = base64::engine::general_purpose::STANDARD
        .decode(payload)
        .unwrap();
    let img = image::load_from_memory(&png).unwrap().to_rgba8();
    assert_eq!((img.width(), img.height()), (1, 1));
    assert_eq!(img.get_pixel(0, 0).0[3], 0);
}

#[test]
fn test_package_icon_asset_pins_both_outcomes() {
    let ok = package_icon_asset("e1", Ok(vec![7, 8])).unwrap();
    assert_eq!(ok.0, "e1.png");
    assert_eq!(ok.1, vec![7, 8]);
    let err = package_icon_asset("e1", Err(CoreError::ExtractionError(String::from("x"))));
    assert!(matches!(err.unwrap_err(), CoreError::ExtractionError(_)));
}

#[test]
fn test_inline_icon_uri_encodes_bytes() {
    let uri = inline_icon_uri(&vec![1, 2, 3]).unwrap();
    assert_eq!(
        uri,
        format!(
            "data:image/png;base64,{}",
            base64::engine::general_purpose::STANDARD.encode([1u8, 2, 3])
        )
    );
}
