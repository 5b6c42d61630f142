use offline_translator::catalog::{
    format_size, languages_from_overview, sort_languages_by_name, total_size, LanguageOverview,
};
use offline_translator::model::{Direction, Language};

fn entry(code: &str, name: &str, to_en: bool, from_en: bool) -> LanguageOverview {
    LanguageOverview {
        code: code.to_string(),
        display_name: name.to_string(),
        dictionary_code: code.to_string(),
        is_english: code == "en",
        has_to_english: to_en,
        has_from_english: from_en,
        tts_files: false,
        core_size_bytes: 1_000,
        core_installed: false,
        dictionary_size_bytes: 0,
        dictionary_installed: false,
        tts_size_bytes: 0,
        tts_voice_regions: Vec::new(),
    }
}

#[test]
fn sizes_round_down_to_whole_units() {
    assert_eq!(format_size(0), "<1 KB");
    assert_eq!(format_size(1023), "<1 KB");
    assert_eq!(format_size(1024), "1 KB");
    assert_eq!(format_size(1024 * 1024 - 1), "1023 KB");
    assert_eq!(format_size(16 * 1024 * 1024), "16 MB");
    assert_eq!(format_size(u64::MAX), "17592186044415 MB");
}

#[test]
fn directions_follow_the_installed_models() {
    let languages = languages_from_overview(vec![
        entry("fr", "French", true, true),
        entry("de", "German", true, false),
        entry("es", "Spanish", false, true),
        entry("it", "Italian", false, false),
        entry("en", "English", false, false),
    ]);
    let by_code = |code: &str| languages.iter().find(|l| l.code == code).unwrap().direction;
    assert_eq!(by_code("fr"), Direction::Both);
    assert_eq!(by_code("de"), Direction::FromOnly);
    assert_eq!(by_code("es"), Direction::ToOnly);
    assert_eq!(by_code("it"), Direction::FromOnly);
    assert_eq!(by_code("en"), Direction::Both);
}

#[test]
fn english_is_built_in_with_nothing_to_download() {
    let languages = languages_from_overview(vec![entry("en", "English", true, true)]);
    assert!(languages[0].built_in);
    assert_eq!(languages[0].core_size_bytes, 0);
    let other = languages_from_overview(vec![entry("nl", "Dutch", true, true)]);
    assert!(!other[0].built_in);
    assert_eq!(other[0].core_size_bytes, 1_000);
}

#[test]
fn languages_are_listed_by_name() {
    let languages = languages_from_overview(vec![
        entry("nl", "Dutch", true, true),
        entry("ar", "Arabic", true, true),
        entry("zz", "Dutch", true, true),
        entry("el", "Ελληνικά", true, true),
        entry("cs", "Czech", true, true),
    ]);
    let names: Vec<_> = languages.iter().map(|l| (l.name.as_str(), l.code.as_str())).collect();
    assert_eq!(
        names,
        vec![
            ("Arabic", "ar"),
            ("Czech", "cs"),
            ("Dutch", "nl"),
            ("Dutch", "zz"),
            ("Ελληνικά", "el"),
        ]
    );
}

#[test]
fn sorting_by_name_keeps_every_language() {
    let mut a = Language::default();
    a.name = "b".to_string();
    let mut b = Language::default();
    b.name = "a".to_string();
    let sorted = sort_languages_by_name(vec![a, b]);
    assert_eq!(sorted.len(), 2);
    assert_eq!(sorted[0].name, "a");
    assert!(sort_languages_by_name(Vec::new()).is_empty());
}

#[test]
fn total_size_adds_every_feature() {
    let mut language = Language::default();
    language.core_size_bytes = 1;
    language.dictionary_size_bytes = 20;
    language.tts_size_bytes = 300;
    assert_eq!(total_size(&language), 321);
}
