use offline_translator::image_ocr::{
    map_background_mode, percent_decode, resolve_local_path, scaled_dimensions, BackgroundMode,
    ImageTranslation,
};

#[test]
fn escapes_are_decoded() {
    assert_eq!(percent_decode("a%20b"), "a b");
    assert_eq!(percent_decode("%E2%98%85"), "★");
    assert_eq!(percent_decode("100%"), "100%");
    assert_eq!(percent_decode("%zz"), "%zz");
    assert_eq!(percent_decode("%4"), "%4");
    assert_eq!(percent_decode("%41%"), "A%");
}

#[test]
fn a_plus_sign_counts_as_an_escape_digit_prefix() {
    // `u8::from_str_radix("+9", 16)` reads 9.
    assert_eq!(percent_decode("%+9x"), "\u{9}x");
}

#[test]
fn invalid_utf8_is_replaced() {
    assert_eq!(percent_decode("%FF"), "\u{FFFD}");
}

#[test]
fn file_urls_become_paths() {
    assert_eq!(
        resolve_local_path("file:///home/me/My%20Pictures/a.png"),
        Some("/home/me/My Pictures/a.png".to_string())
    );
    assert_eq!(resolve_local_path("/tmp/x.png"), Some("/tmp/x.png".to_string()));
    assert_eq!(resolve_local_path("file://"), Some("file://".to_string()));
    assert_eq!(resolve_local_path(""), None);
}

#[test]
fn large_images_are_scaled_to_the_limit() {
    assert_eq!(scaled_dimensions(4000, 3000, 1000), (1000, 750));
    assert_eq!(scaled_dimensions(3000, 4000, 1000), (750, 1000));
    assert_eq!(scaled_dimensions(800, 600, 1000), (800, 600));
    assert_eq!(scaled_dimensions(800, 600, 0), (800, 600));
    assert_eq!(scaled_dimensions(100_000, 1, 1000), (1000, 1));
    assert_eq!(scaled_dimensions(0, 0, 1000), (1, 1));
    assert_eq!(scaled_dimensions(u32::MAX, u32::MAX, u32::MAX - 1), (u32::MAX - 1, u32::MAX - 1));
}

#[test]
fn background_labels_pick_the_colours() {
    assert_eq!(map_background_mode("Light Background"), BackgroundMode::BlackOnWhite);
    assert_eq!(map_background_mode("Dark Background"), BackgroundMode::WhiteOnBlack);
    assert_eq!(map_background_mode("Auto-detect Colors"), BackgroundMode::AutoDetect);
}

#[test]
fn a_translation_carries_its_image() {
    let t = ImageTranslation {
        extracted_text: "a".to_string(),
        translated_text: "b".to_string(),
        image_width: 1,
        image_height: 1,
        rendered_rgba_bytes: vec![0, 0, 0, 255],
    };
    assert_eq!(t.rendered_rgba_bytes.len(), 4);
}

#[test]
fn text_without_escapes_is_left_alone() {
    for text in ["", "plain", "/home/u/Bilder/Straße.png", "日本語"] {
        assert_eq!(percent_decode(text), text);
    }
}

#[test]
fn scaled_sizes_stay_within_the_limit() {
    for (w, h) in [(5000, 10), (10, 5000), (1001, 1001), (3000, 2000)] {
        let (sw, sh) = scaled_dimensions(w, h, 1000);
        assert!(sw >= 1 && sh >= 1 && sw <= 1000 && sh <= 1000);
        assert!(sw == 1000 || sh == 1000);
    }
}
