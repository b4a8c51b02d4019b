use batch_image_processing::image_ops::{
    expand_template, is_supported_image_extension, pdf_image_name, pdf_object_layout,
    rotate_image, stamp_origin, template_mentions_filename, PdfPageRefs, Rotation, TextColor,
    TextPosition, PDF_CATALOG_ID, PDF_PAGE_TREE_ID,
};
use image::{DynamicImage, GenericImageView, Rgba, RgbaImage};

#[test]
fn default_text_color_is_opaque_white() {
    let c = TextColor::default();
    assert_eq!((c.r, c.g, c.b, c.a), (255, 255, 255, 255));
}

#[test]
fn stamp_is_placed_in_the_chosen_corner() {
    let (w, h, sw, sh, m) = (200, 100, 50, 20, 10);
    assert_eq!(stamp_origin(TextPosition::TopLeft, m, w, h, sw, sh), (10, 10));
    assert_eq!(stamp_origin(TextPosition::TopRight, m, w, h, sw, sh), (140, 10));
    assert_eq!(stamp_origin(TextPosition::BottomLeft, m, w, h, sw, sh), (10, 70));
    assert_eq!(stamp_origin(TextPosition::BottomRight, m, w, h, sw, sh), (140, 70));
    assert_eq!(stamp_origin(TextPosition::Center, m, w, h, sw, sh), (75, 40));
}

#[test]
fn oversized_stamp_is_clamped_at_zero() {
    assert_eq!(stamp_origin(TextPosition::BottomRight, 10, 30, 30, 50, 50), (0, 0));
    assert_eq!(stamp_origin(TextPosition::Center, 10, 30, 30, 50, 51), (0, 0));
    assert_eq!(stamp_origin(TextPosition::TopLeft, 10, 5, 5, 50, 50), (10, 10));
}

#[test]
fn stamp_that_fits_stays_inside_the_image() {
    for pos in [
        TextPosition::TopLeft,
        TextPosition::TopRight,
        TextPosition::BottomLeft,
        TextPosition::BottomRight,
        TextPosition::Center,
    ] {
        let (x, y) = stamp_origin(pos, 7, 64, 48, 57, 41);
        assert!(x >= 0 && x + 57 <= 64);
        assert!(y >= 0 && y + 41 <= 48);
    }
}

#[test]
fn template_expansion_replaces_every_placeholder() {
    assert_eq!(expand_template("{filename}", "IMG_1"), "IMG_1");
    assert_eq!(expand_template("Photo: {filename}!", "a"), "Photo: a!");
    assert_eq!(expand_template("{filename}-{filename}", "x"), "x-x");
    assert_eq!(expand_template("{file{filename}}", "n"), "{filen}");
    assert_eq!(expand_template("{filename", "n"), "{filename");
    assert_eq!(expand_template("", "n"), "");
    for (t, f) in [("é{filename}ü", "ñ"), ("{filename}{filename}", "{filename}")] {
        assert_eq!(expand_template(t, f), t.replace("{filename}", f));
    }
}

#[test]
fn template_without_placeholder_is_the_same_for_every_file() {
    assert!(!template_mentions_filename("Event 2024"));
    assert!(template_mentions_filename("Event {filename}"));
    assert!(!template_mentions_filename("{filenam}"));
    for f in ["", "a", "{filename}"] {
        assert_eq!(expand_template("Event 2024", f), "Event 2024");
    }
}

#[test]
fn pdf_objects_follow_catalog_and_page_tree() {
    assert_eq!(PDF_CATALOG_ID, 1);
    assert_eq!(PDF_PAGE_TREE_ID, 2);
    assert_eq!(
        pdf_object_layout(2),
        vec![
            PdfPageRefs { page: 3, content: 4, image: 5 },
            PdfPageRefs { page: 6, content: 7, image: 8 }
        ]
    );
    assert!(pdf_object_layout(0).is_empty());
    let refs = pdf_object_layout(50);
    let mut ids: Vec<i32> = refs.iter().flat_map(|r| [r.page, r.content, r.image]).collect();
    ids.sort();
    ids.dedup();
    assert_eq!(ids.len(), 150);
    assert!(ids[0] > PDF_PAGE_TREE_ID);
}

#[test]
fn pdf_image_names() {
    assert_eq!(pdf_image_name(0), "Im0");
    assert_eq!(pdf_image_name(12), "Im12");
}

fn two_pixel_image() -> DynamicImage {
    let mut img = RgbaImage::new(2, 1);
    img.put_pixel(0, 0, Rgba([255, 0, 0, 255]));
    img.put_pixel(1, 0, Rgba([0, 0, 255, 255]));
    DynamicImage::ImageRgba8(img)
}

#[test]
fn rotation_turns_the_image_clockwise() {
    let img = two_pixel_image();
    let same = rotate_image(&img, Rotation::NoRotation);
    assert_eq!(same, img);

    let r90 = rotate_image(&img, Rotation::Cw90);
    assert_eq!(r90.dimensions(), (1, 2));
    assert_eq!(r90.get_pixel(0, 0), Rgba([255, 0, 0, 255]));
    assert_eq!(r90.get_pixel(0, 1), Rgba([0, 0, 255, 255]));

    let r180 = rotate_image(&img, Rotation::Cw180);
    assert_eq!(r180.dimensions(), (2, 1));
    assert_eq!(r180.get_pixel(0, 0), Rgba([0, 0, 255, 255]));

    let r270 = rotate_image(&img, Rotation::Cw270);
    assert_eq!(r270.dimensions(), (1, 2));
    assert_eq!(r270.get_pixel(0, 0), Rgba([0, 0, 255, 255]));
}

#[test]
fn image_extensions_are_matched_without_case() {
    assert!(is_supported_image_extension(Some("jpg")));
    assert!(is_supported_image_extension(Some("JPG")));
    assert!(is_supported_image_extension(Some("JpEg")));
    assert!(is_supported_image_extension(Some("png")));
    assert!(!is_supported_image_extension(Some("gif")));
    assert!(!is_supported_image_extension(Some("jpg ")));
    assert!(!is_supported_image_extension(Some("")));
    assert!(!is_supported_image_extension(None));
}
