use image::{DynamicImage, ImageBuffer, ImageFormat, Rgba};
use lapidary::images::{normalize, ImageError, MAX_EDGE_PX, MAX_INPUT_BYTES};
use std::io::Cursor;

/// A real image of `width`×`height`, encoded as `format`.
fn encoded(width: u32, height: u32, format: ImageFormat) -> Vec<u8> {
    let buffer = ImageBuffer::from_fn(width, height, |x, y| Rgba([(x % 256) as u8, (y % 256) as u8, 128, 255]));
    let mut out = Cursor::new(Vec::new());
    DynamicImage::ImageRgba8(buffer).write_to(&mut out, format).expect("the fixture encodes");
    out.into_inner()
}

#[test]
fn a_png_comes_back_as_webp_at_its_own_size() {
    let out = normalize(&encoded(320, 240, ImageFormat::Png)).expect("a real png normalizes");
    assert_eq!((out.width, out.height), (320, 240), "within bounds, so unchanged");
    assert_eq!(image::guess_format(&out.webp).expect("the output has a format"), ImageFormat::WebP, "one stored format, whatever went in");
}

#[test]
fn a_jpeg_comes_back_as_webp_too() {
    let out = normalize(&encoded(320, 240, ImageFormat::Jpeg)).expect("a real jpeg normalizes");
    assert_eq!(image::guess_format(&out.webp).expect("the output has a format"), ImageFormat::WebP);
}

#[test]
fn an_image_over_the_long_edge_is_resized_and_keeps_its_shape() {
    let out = normalize(&encoded(3000, 1500, ImageFormat::Png)).expect("normalizes");
    assert_eq!(out.width, MAX_EDGE_PX, "the long edge lands on the bound");
    assert_eq!(out.height, MAX_EDGE_PX / 2, "and the aspect ratio survives");
}

#[test]
fn a_favicon_sized_image_is_refused_and_says_what_is_wrong_with_it() {
    let err = normalize(&encoded(16, 16, ImageFormat::Png)).expect_err("refused");
    assert!(matches!(err, ImageError::TooSmall { .. }));
    let message = err.message();
    assert!(message.contains("16×16") && message.contains("64"), "the refusal names the size it got and the size it wants: {message}");
}

#[test]
fn bytes_that_are_not_an_image_are_refused_however_they_are_labelled() {
    let err = normalize(b"GIF89a not really, and not a format we decode either").expect_err("refused");
    assert!(matches!(err, ImageError::NotAnImage));
}

#[test]
fn a_format_this_build_does_not_decode_is_refused_at_the_header() {
    let mut bmp = b"BM".to_vec();
    bmp.extend_from_slice(&[0u8; 64]);
    assert!(matches!(normalize(&bmp).expect_err("refused"), ImageError::NotAnImage));
}

#[test]
fn a_truncated_image_is_refused_as_unreadable_rather_than_as_not_an_image() {
    let png = encoded(320, 240, ImageFormat::Png);
    let half = &png[..png.len() / 2];
    assert!(matches!(normalize(half).expect_err("refused"), ImageError::Undecodable));
}

#[test]
fn an_oversized_file_is_refused_without_being_decoded() {
    let err = normalize(&vec![0u8; MAX_INPUT_BYTES + 1]).expect_err("refused");
    assert!(matches!(err, ImageError::TooLarge { .. }), "and as too large rather than as not-an-image");
}

#[test]
fn an_image_that_would_allocate_past_the_decode_limit_is_refused() {
    let big = encoded(4200, 4200, ImageFormat::Png);
    assert!(big.len() < MAX_INPUT_BYTES, "the fixture has to be small enough to get past the input ceiling: {} bytes", big.len());
    assert!(matches!(normalize(&big).expect_err("the limit refuses it"), ImageError::Undecodable));
}

#[test]
fn a_tall_image_is_resized_on_its_height() {
    let out = normalize(&encoded(100, 4096, ImageFormat::Png)).expect("normalizes");
    assert_eq!((out.width, out.height), (50, MAX_EDGE_PX));
}

#[test]
fn an_image_one_pixel_short_on_one_edge_is_refused() {
    assert_eq!(normalize(&encoded(64, 63, ImageFormat::Png)).unwrap_err(), ImageError::TooSmall { width: 64, height: 63 });
    assert!(normalize(&encoded(64, 64, ImageFormat::Png)).is_ok());
}

#[test]
fn a_webp_comes_back_as_webp_with_a_riff_header() {
    let out = normalize(&encoded(200, 100, ImageFormat::WebP)).expect("a real webp normalizes");
    assert_eq!((out.width, out.height), (200, 100));
    assert_eq!(&out.webp[0..4], b"RIFF");
    assert_eq!(&out.webp[8..12], b"WEBP");
}

#[test]
fn the_stored_webp_holds_the_picture_that_went_in() {
    let picture = ImageBuffer::from_fn(97, 64, |x, y| Rgba([(x * 2) as u8, (y * 3) as u8, ((x + y) % 256) as u8, 255 - (x % 7) as u8]));
    let mut png = Vec::new();
    DynamicImage::ImageRgba8(picture.clone()).write_to(&mut Cursor::new(&mut png), ImageFormat::Png).expect("encodes");
    let out = normalize(&png).expect("normalizes");
    let back = image::load_from_memory_with_format(&out.webp, ImageFormat::WebP).expect("decodes").to_rgba8();
    assert_eq!((back.width(), back.height()), (97, 64));
    assert_eq!(back.as_raw(), picture.as_raw(), "lossless: the same pixels come back");
}

#[test]
fn a_resized_picture_is_the_thumbnail_of_what_went_in() {
    let picture = ImageBuffer::from_fn(3000, 100, |x, y| Rgba([(x % 256) as u8, (y % 256) as u8, 7, 255]));
    let mut png = Vec::new();
    DynamicImage::ImageRgba8(picture.clone()).write_to(&mut Cursor::new(&mut png), ImageFormat::Png).expect("encodes");
    let out = normalize(&png).expect("normalizes");
    assert_eq!((out.width, out.height), (2048, 68));
    let expected = DynamicImage::ImageRgba8(picture).thumbnail(2048, 2048).to_rgba8();
    let back = image::load_from_memory_with_format(&out.webp, ImageFormat::WebP).expect("decodes").to_rgba8();
    assert_eq!(back.as_raw(), expected.as_raw());
}
