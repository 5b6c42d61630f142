use offline_translator::document::split_file_name;
use offline_translator::pcm::duration_of_nanos;
use offline_translator::document::output_path_from_parts;
use offline_translator::font_query::{cased_subtag, subtag_case, SubtagCase};
use offline_translator::text::char_is_whitespace;
use offline_translator::detection::{code_from_detection, detected_language_code};
use offline_translator::document::document_output_path;
use offline_translator::font_query::{FontRequest, Script};
use offline_translator::fonts_stub::{provider, NullFontProvider};
use offline_translator::model::{FeatureKind, Platform, Screen};
use offline_translator::pcm::{PcmSamples, SampleRate};
use offline_translator::pulse_stub::PulsePlaybackStream;
use offline_translator::settings::{
    default_catalog_index_url, default_lang_code, default_ocr_background_mode,
    default_ocr_max_image_size, default_ocr_min_confidence,
};

#[test]
fn feature_numbers_round_trip() {
    for kind in [FeatureKind::Core, FeatureKind::Dictionary, FeatureKind::Tts] {
        assert_eq!(FeatureKind::from_i32(kind.as_i32()), Some(kind));
    }
    assert_eq!(FeatureKind::from_i32(3), None);
    assert_eq!(FeatureKind::from_i32(-1), None);
}

#[test]
fn screens_have_fixed_numbers() {
    assert_eq!(Screen::NoLanguages.as_i32(), 0);
    assert_eq!(Screen::Translation.as_i32(), 1);
    assert_eq!(Screen::Settings.as_i32(), 2);
    assert_eq!(Screen::ManageLanguages.as_i32(), 3);
    assert_eq!(Screen::default(), Screen::NoLanguages);
    assert!(Platform::Desktop.is_desktop());
    assert!(!Platform::UbuntuTouch.is_desktop());
}

#[test]
fn settings_defaults() {
    assert_eq!(default_lang_code(), "en");
    assert_eq!(default_ocr_background_mode(), "Auto-detect Colors");
    assert_eq!(default_ocr_min_confidence(), 75);
    assert_eq!(default_ocr_max_image_size(), 1000);
    assert_eq!(default_catalog_index_url(), "https://offline-translator.davidv.dev/index");
}

#[test]
fn translated_documents_land_in_the_data_directory() {
    assert_eq!(
        document_output_path("/data", "/home/me/Report.PDF", "en", "nl"),
        "/data/translated/Report.en-nl.pdf"
    );
    assert_eq!(
        document_output_path("/data", "/home/me/notes", "de", "fr"),
        "/data/translated/notes.de-fr.bin"
    );
    assert_eq!(
        document_output_path("/data", "/", "de", "fr"),
        "/data/translated/document.de-fr.bin"
    );
    assert_eq!(
        document_output_path("/d", "archive.tar.GZ", "a", "b"),
        "/d/translated/archive.tar.a-b.gz"
    );
}

#[test]
fn only_reliable_detections_are_reported() {
    assert_eq!(code_from_detection(Some("fr".to_string()), true), "fr");
    assert_eq!(code_from_detection(Some("fr".to_string()), false), "");
    assert_eq!(code_from_detection(None, true), "");
}

#[test]
fn a_french_paragraph_is_detected() {
    let text = "Sur le pont d'Avignon, l'on y danse, l'on y danse. Sur le pont d'Avignon, l'on y danse tous en rond. Les belles dames font comme ça et puis encore comme ça.";
    assert_eq!(detected_language_code(text), "fr");
    assert_eq!(detected_language_code(""), "");
}

#[test]
fn the_null_provider_knows_no_fonts() {
    let request = FontRequest {
        script: Script::Latin,
        language: "en".to_string(),
        bold: false,
        italic: false,
        monospace: false,
    };
    assert!(NullFontProvider.locate(&request).is_empty());
    assert!(provider().locate(&request).is_empty());
}

#[test]
fn the_silent_stream_accepts_everything() {
    let stream = PulsePlaybackStream::new(22_050).unwrap();
    let mut stop = || false;
    let samples = [0i16; 8];
    let rate = SampleRate::try_from(22_050).unwrap();
    assert!(stream.write_audio(&PcmSamples::new(rate, &samples), &mut stop).is_ok());
    assert!(stream.write_pause_ms(100, &mut stop).is_ok());
    assert!(stream.flush().is_ok());
}

#[test]
fn output_paths_from_their_parts() {
    assert_eq!(
        output_path_from_parts("/data", Some("report"), Some("PDF"), "en", "de"),
        "/data/translated/report.en-de.pdf"
    );
    assert_eq!(
        output_path_from_parts("/data", None, None, "fr", "en"),
        "/data/translated/document.fr-en.bin"
    );
}

#[test]
fn subtags_are_cased_by_position_and_length() {
    assert_eq!(subtag_case(0, 4), SubtagCase::Lower);
    assert_eq!(subtag_case(1, 4), SubtagCase::Title);
    assert_eq!(subtag_case(2, 2), SubtagCase::Upper);
    assert_eq!(subtag_case(1, 3), SubtagCase::Upper);
    assert_eq!(subtag_case(1, 5), SubtagCase::Lower);
    let title = cased_subtag(SubtagCase::Title, vec![], vec![], vec!['H'], &['a', 'n', 't']);
    assert_eq!(title, vec!['H', 'a', 'n', 't']);
    assert_eq!(cased_subtag(SubtagCase::Upper, vec!['b'], vec!['B'], vec![], &[]), vec!['B']);
}

#[test]
fn whitespace_is_the_unicode_property() {
    for c in ['\t', '\n', '\r', ' ', '\u{85}', '\u{a0}', '\u{1680}', '\u{2000}', '\u{200a}', '\u{2028}', '\u{2029}', '\u{202f}', '\u{205f}', '\u{3000}'] {
        assert!(char_is_whitespace(c), "{c:?}");
    }
    for c in ['a', '\u{200b}', '\u{feff}', '\u{180e}', '-'] {
        assert!(!char_is_whitespace(c), "{c:?}");
    }
    for code in 0u32..=0x3000 {
        if let Some(c) = char::from_u32(code) {
            assert_eq!(char_is_whitespace(c), c.is_whitespace(), "{code:x}");
        }
    }
}

#[test]
fn file_names_split_as_path_does() {
    for name in ["report.PDF", ".bashrc", "a.b.c", "noext", "trailing.", ".a.b", "x"] {
        let path = std::path::Path::new(name);
        let expected_stem = path.file_stem().map(|s| s.to_str().unwrap().to_string()).unwrap();
        let expected_ext = path.extension().map(|s| s.to_str().unwrap().to_string());
        assert_eq!(split_file_name(name), (expected_stem, expected_ext), "{name}");
    }
    assert_eq!(split_file_name("a.b.c"), ("a.b".to_string(), Some("c".to_string())));
}

#[test]
fn nanosecond_durations() {
    assert_eq!(duration_of_nanos(1_500_000), std::time::Duration::from_micros(1500));
}
