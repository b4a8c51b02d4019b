use batch_image_processing::image_ops::{
    create_failed_message, decode_failed_message, decode_jpeg_rgba, encode_failed_message,
    encode_jpeg, generate_thumbnail, open_failed_message,
};
use image::{ColorType, DynamicImage, GenericImageView, Rgb, RgbImage};
use std::path::PathBuf;

fn sample_image(w: u32, h: u32) -> DynamicImage {
    DynamicImage::ImageRgb8(RgbImage::from_fn(w, h, |x, y| {
        Rgb([(x * 10) as u8, (y * 20) as u8, 128])
    }))
}

#[test]
fn encoded_jpeg_decodes_back_to_an_rgba_image_of_the_same_size() {
    let img = sample_image(16, 8);
    let bytes = encode_jpeg(&img, &PathBuf::from("out/a.jpg"), 90).expect("encodes");
    assert!(bytes.len() > 4);
    assert_eq!(&bytes[..2], &[0xFF, 0xD8]);
    let decoded = decode_jpeg_rgba(&bytes).expect("decodes");
    assert_eq!(decoded.dimensions(), (16, 8));
    assert_eq!(decoded.color(), ColorType::Rgba8);
}

#[test]
fn decoding_bytes_that_are_no_jpeg_gives_nothing() {
    assert!(decode_jpeg_rgba(&[]).is_none());
    assert!(decode_jpeg_rgba(b"not a jpeg at all").is_none());
}

#[test]
fn encoding_an_empty_image_fails_with_the_path_in_the_message() {
    let img = DynamicImage::new_luma8(0, 0);
    let err = encode_jpeg(&img, &PathBuf::from("out/empty.jpg"), 90).unwrap_err();
    assert!(err.starts_with("Failed to encode JPEG out/empty.jpg: "), "{err}");
    assert!(err.contains("Invalid image size (0 x 0)"), "{err}");
}

#[test]
fn higher_quality_gives_more_bytes() {
    let img = sample_image(64, 64);
    let low = encode_jpeg(&img, &PathBuf::from("x.jpg"), 10).unwrap();
    let high = encode_jpeg(&img, &PathBuf::from("x.jpg"), 100).unwrap();
    assert!(high.len() > low.len());
}

#[test]
fn thumbnail_fits_within_the_longest_side_and_is_rgba() {
    let thumb = generate_thumbnail(&sample_image(400, 200), 100);
    assert_eq!(thumb.dimensions(), (100, 50));
    assert_eq!(thumb.color(), ColorType::Rgba8);
    let tall = generate_thumbnail(&sample_image(30, 120), 60);
    assert_eq!(tall.dimensions(), (15, 60));
}

#[test]
fn image_io_messages_name_the_path_and_the_error() {
    let p = PathBuf::from("photos/a.jpg");
    assert_eq!(open_failed_message(&p, "gone"), "Failed to open photos/a.jpg: gone");
    assert_eq!(decode_failed_message(&p, "bad"), "Failed to decode photos/a.jpg: bad");
    assert_eq!(create_failed_message(&p, "denied"), "Failed to create photos/a.jpg: denied");
    assert_eq!(encode_failed_message(&p, "full"), "Failed to encode JPEG photos/a.jpg: full");
}
