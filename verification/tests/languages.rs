use offline_translator::languages::{
    camera_intent_allowed, ensure_selection_is_valid, find_language_by_code,
    first_selectable_language, is_language_available, is_language_selectable, language_views,
    missing_language_action, refresh_detected_language, swap_enabled, DetectedCard,
    MissingLanguageAction,
};
use offline_translator::model::{Direction, Language};

fn language(code: &str, name: &str, direction: Direction, installed: bool, built_in: bool) -> Language {
    Language {
        code: code.to_string(),
        name: name.to_string(),
        direction,
        core_installed: installed,
        built_in,
        ..Language::default()
    }
}

fn catalog() -> Vec<Language> {
    vec![
        language("de", "Deutsch", Direction::Both, true, false),
        language("en", "English", Direction::Both, false, true),
        language("es", "Español", Direction::ToOnly, true, false),
        language("fr", "Français", Direction::FromOnly, false, false),
        language("ja", "日本語", Direction::FromOnly, true, false),
    ]
}

#[test]
fn availability_needs_models_and_direction() {
    let c = catalog();
    assert!(is_language_available(&c[0], true));
    assert!(is_language_available(&c[1], false));
    assert!(!is_language_available(&c[2], true));
    assert!(is_language_available(&c[2], false));
    assert!(!is_language_available(&c[3], true));
    assert!(is_language_selectable(&c, "ja", true));
    assert!(!is_language_selectable(&c, "ja", false));
    assert!(!is_language_selectable(&c, "xx", true));
    assert_eq!(find_language_by_code(&c, "es").unwrap().name, "Español");
    assert!(find_language_by_code(&c, "xx").is_none());
    assert_eq!(first_selectable_language(&c, false), Some(0));
}

#[test]
fn views_split_installed_from_available() {
    let c = catalog();
    let views = language_views(&c, "");
    assert_eq!(views.installed, vec![0, 1, 2, 4]);
    assert_eq!(views.available, vec![3]);
    assert_eq!(views.manage, vec![0, 1, 2, 3, 4]);
    assert_eq!(views.from_names, vec!["Deutsch", "English", "日本語"]);
    assert_eq!(views.to_names, vec!["Deutsch", "English", "Español"]);
    assert!(views.has_languages);
}

#[test]
fn the_manage_filter_matches_lower_cased_names() {
    let c = catalog();
    assert_eq!(language_views(&c, "fr").manage, vec![3]);
    assert_eq!(language_views(&c, "e").manage, vec![0, 1, 2]);
    assert_eq!(language_views(&c, "xyz").manage, Vec::<usize>::new());
}

#[test]
fn only_english_means_no_languages() {
    let c = vec![language("en", "English", Direction::Both, false, true)];
    assert!(!language_views(&c, "").has_languages);
}

#[test]
fn a_selection_that_cannot_be_picked_moves_to_the_first_that_can() {
    let c = catalog();
    let mut source = "es".to_string();
    assert_eq!(ensure_selection_is_valid(&c, &mut source, true), Some(0));
    assert_eq!(source, "de");
    let mut target = "es".to_string();
    assert_eq!(ensure_selection_is_valid(&c, &mut target, false), None);
    assert_eq!(target, "es");
    let mut nothing = "fr".to_string();
    assert_eq!(ensure_selection_is_valid(&[], &mut nothing, true), None);
    assert_eq!(nothing, "fr");
}

#[test]
fn swapping_needs_both_ways() {
    let c = catalog();
    assert!(swap_enabled(&c, "de", "en"));
    assert!(!swap_enabled(&c, "de", "es"));
    assert!(!swap_enabled(&c, "de", "xx"));
}

#[test]
fn the_detected_card_shows_for_a_usable_other_source() {
    let c = catalog();
    assert_eq!(
        refresh_detected_language(&c, "fr", "de", false),
        DetectedCard { language: Some(3), installed: false, show_card: true }
    );
    assert_eq!(
        refresh_detected_language(&c, "de", "de", false),
        DetectedCard { language: Some(0), installed: true, show_card: false }
    );
    assert_eq!(
        refresh_detected_language(&c, "es", "de", false),
        DetectedCard { language: Some(2), installed: true, show_card: false }
    );
    assert_eq!(
        refresh_detected_language(&c, "fr", "de", true),
        DetectedCard { language: Some(3), installed: false, show_card: false }
    );
    assert_eq!(
        refresh_detected_language(&c, "", "de", false),
        DetectedCard { language: None, installed: false, show_card: false }
    );
}

#[test]
fn the_card_button_selects_or_downloads() {
    let c = catalog();
    assert_eq!(missing_language_action(&c, "ja"), MissingLanguageAction::SelectSource(4));
    assert_eq!(missing_language_action(&c, "fr"), MissingLanguageAction::Download(3));
    assert_eq!(missing_language_action(&c, ""), MissingLanguageAction::Nothing);
    assert_eq!(missing_language_action(&c, "xx"), MissingLanguageAction::Nothing);
}

#[test]
fn camera_intents_need_ocr_and_a_language() {
    assert!(camera_intent_allowed(false, true));
    assert!(!camera_intent_allowed(true, true));
    assert!(!camera_intent_allowed(false, false));
}
