use std::io::Cursor;

use offline_translator::image_load::{load_image_rgba, load_preview_rgba, open_failure};

fn png(width: u32, height: u32) -> (Vec<u8>, Vec<u8>) {
    let pixels: Vec<u8> = (0..width * height * 4).map(|i| (i * 7 % 251) as u8).collect();
    let picture = image::RgbaImage::from_raw(width, height, pixels.clone()).unwrap();
    let mut out = Cursor::new(Vec::new());
    picture.write_to(&mut out, image::ImageFormat::Png).unwrap();
    (out.into_inner(), pixels)
}

#[test]
fn an_image_within_the_limit_keeps_its_pixels() {
    let (bytes, pixels) = png(4, 2);
    let loaded = load_image_rgba("pic.png", &bytes, 0).unwrap();
    assert_eq!((loaded.width, loaded.height), (4, 2));
    assert_eq!(loaded.rgba_bytes, pixels);
    let loaded = load_image_rgba("pic.png", &bytes, 4).unwrap();
    assert_eq!(loaded.rgba_bytes, pixels);
}

#[test]
fn a_larger_image_is_resized_with_the_triangle_filter() {
    let (bytes, pixels) = png(8, 4);
    let (px, w, h) = load_preview_rgba("pic.png", &bytes, 4).unwrap();
    assert_eq!((w, h), (4, 2));
    assert_eq!(px.len(), 4 * 2 * 4);
    let source = image::RgbaImage::from_raw(8, 4, pixels).unwrap();
    let expected =
        image::imageops::resize(&source, 4, 2, image::imageops::FilterType::Triangle).into_raw();
    assert_eq!(px, expected);
}

#[test]
fn undecodable_bytes_name_the_stage_and_the_file() {
    let message = load_image_rgba("broken.png", b"not a picture", 0).unwrap_err();
    assert!(message.starts_with("Failed to create decoder for image broken.png: "), "{message}");
    let (bytes, _) = png(2, 2);
    let message = load_image_rgba("pic.unknown", &bytes, 0).unwrap_err();
    assert!(message.starts_with("Failed to create decoder for image pic.unknown: "), "{message}");
    let truncated = &bytes[..bytes.len() - 20];
    let message = load_image_rgba("pic.png", truncated, 0).unwrap_err();
    assert!(message.starts_with("Failed to decode image pic.png: "), "{message}");
}

#[test]
fn unreadable_files_are_named() {
    assert_eq!(open_failure("/x/a.png", "No such file"), "Failed to open image /x/a.png: No such file");
}
