use offline_translator::document::{
    document_outcome, DocumentEvent, DocumentFailure, DocumentPanel, DocumentProgress,
};
use offline_translator::model::{Direction, FeatureKind, Language, Screen};
use offline_translator::navigation::{start_screen, Navigation};
use offline_translator::selection::{
    features_to_delete, features_to_download, find_language_by_name, ExpandedRows,
    LanguageSelection,
};

fn language(code: &str, name: &str, direction: Direction, installed: bool) -> Language {
    Language {
        code: code.to_string(),
        name: name.to_string(),
        direction,
        core_installed: installed,
        ..Language::default()
    }
}

fn catalog() -> Vec<Language> {
    vec![
        language("de", "Deutsch", Direction::Both, true),
        language("en", "English", Direction::Both, true),
        language("es", "Español", Direction::ToOnly, true),
        language("ja", "日本語", Direction::FromOnly, false),
    ]
}

#[test]
fn picking_by_name_sets_code_and_name() {
    let languages = catalog();
    assert_eq!(find_language_by_name(&languages, "Español"), Some(2));
    assert_eq!(find_language_by_name(&languages, "Klingon"), None);
    let mut selection = LanguageSelection::new();
    assert_eq!(selection.source_code, "en");
    assert_eq!(selection.target_name, "English");
    assert!(selection.set_source_by_name(&languages, "Deutsch"));
    assert_eq!((selection.source_code.as_str(), selection.source_name.as_str()), ("de", "Deutsch"));
    assert!(!selection.set_target_by_name(&languages, "Klingon"));
    assert_eq!(selection.target_code, "en");
}

#[test]
fn swapping_twice_restores_the_pair() {
    let languages = catalog();
    let mut selection = LanguageSelection::new();
    selection.set_source_by_name(&languages, "Deutsch");
    selection.set_target_by_name(&languages, "Español");
    selection.swap(&languages);
    assert_eq!((selection.source_code.as_str(), selection.target_code.as_str()), ("es", "de"));
    selection.swap(&languages);
    assert_eq!((selection.source_code.as_str(), selection.target_code.as_str()), ("de", "es"));
}

#[test]
fn saved_pair_and_invalid_sides() {
    let languages = catalog();
    let mut selection = LanguageSelection::new();
    selection.apply_saved_pair(&languages, "ja", "xx");
    assert_eq!((selection.source_code.as_str(), selection.source_name.as_str()), ("ja", "日本語"));
    assert_eq!(selection.target_code, "en");
    // Japanese is not installed, so the source falls back to the first
    // language that can be a source; English stays a valid target.
    selection.ensure_valid(&languages);
    assert_eq!((selection.source_code.as_str(), selection.source_name.as_str()), ("de", "Deutsch"));
    assert_eq!(selection.target_code, "en");
}

#[test]
fn download_all_and_delete_all_plans() {
    let mut lang = language("de", "Deutsch", Direction::Both, false);
    lang.core_size_bytes = 10;
    lang.dictionary_size_bytes = 5;
    lang.dictionary_installed = true;
    lang.tts_size_bytes = 0;
    assert_eq!(features_to_download(&lang), vec![FeatureKind::Core]);
    assert_eq!(features_to_delete(&lang), vec![FeatureKind::Dictionary]);
    lang.core_installed = true;
    lang.tts_size_bytes = 3;
    lang.tts_installed = true;
    assert_eq!(features_to_download(&lang), Vec::<FeatureKind>::new());
    assert_eq!(
        features_to_delete(&lang),
        vec![FeatureKind::Tts, FeatureKind::Dictionary, FeatureKind::Core]
    );
}

#[test]
fn rows_toggle_open_and_shut() {
    let mut rows = ExpandedRows::new();
    assert!(!rows.contains("de"));
    assert!(rows.toggle("de"));
    assert!(rows.toggle("fr"));
    assert!(rows.contains("de"));
    assert!(!rows.toggle("de"));
    assert!(!rows.contains("de"));
    assert!(rows.contains("fr"));
}

#[test]
fn navigation_between_screens() {
    let mut nav = Navigation::new(Screen::NoLanguages.as_i32());
    nav.languages_loaded(false);
    assert_eq!(nav.current_screen, 0);
    nav.languages_loaded(true);
    assert_eq!(nav.current_screen, 1);
    nav.show_settings();
    nav.show_manage_languages();
    nav.open_tts_picker("de".to_string());
    assert!(nav.tts_picker_open);
    nav.back_from_manage_languages(false);
    assert_eq!(nav.current_screen, Screen::Settings.as_i32());
    assert!(!nav.tts_picker_open);
    assert_eq!(nav.tts_picker_language_code, "");
    nav.back_from_settings();
    assert_eq!(nav.current_screen, 1);

    let mut fresh = Navigation::new(Screen::ManageLanguages.as_i32());
    fresh.back_from_manage_languages(false);
    assert_eq!(fresh.current_screen, Screen::NoLanguages.as_i32());
    fresh.finish_language_setup(false);
    assert_eq!(fresh.current_screen, 0);
    fresh.finish_language_setup(true);
    assert_eq!(fresh.current_screen, 1);
}

#[test]
fn start_screen_override() {
    assert_eq!(start_screen(None), 0);
    assert_eq!(start_screen(Some(String::new())), 0);
    assert_eq!(start_screen(Some("3".to_string())), 3);
    assert_eq!(start_screen(Some("-7".to_string())), -7);
    assert_eq!(start_screen(Some("two".to_string())), 0);
    assert_eq!(start_screen(Some("99999999999".to_string())), 0);
}

#[test]
fn document_sheets_follow_the_job() {
    let mut panel = DocumentPanel::new();
    assert!(panel.start("en".to_string(), "de".to_string()).is_none());
    panel.pick("/docs/Paper.pdf".to_string(), "pdf", 3 * 1024 * 1024);
    assert!(panel.drawer_open && panel.is_pdf);
    assert_eq!(panel.file_name, "Paper.pdf");
    assert_eq!(panel.file_size, "3 MB");
    let request = panel.start("en".to_string(), "de".to_string()).unwrap();
    assert_eq!(request.input_path, "/docs/Paper.pdf");
    assert!(request.translate_pdf_images);
    assert!(!panel.drawer_open && panel.progress_open);
    assert_eq!(panel.progress_label, "Preparing file");

    panel.apply_event(DocumentEvent::Progress(DocumentProgress::PdfPlan {
        image_xobjects: 4,
        raster_pages: 2,
    }));
    assert_eq!(panel.progress_label, "Translating");
    assert!(panel.show_pdf_phases);
    assert_eq!((panel.images_total, panel.raster_total), (4, 2));
    panel.apply_event(DocumentEvent::Progress(DocumentProgress::TranslatingImages {
        current: 1,
        total: 4,
    }));
    assert_eq!(panel.images_current, 1);
    panel.apply_event(DocumentEvent::Progress(DocumentProgress::Writing));
    assert_eq!(panel.progress_label, "Writing file");

    panel.apply_event(document_outcome(Ok(()), "/data/translated/Paper.en-de.pdf".to_string()));
    assert!(!panel.progress_open && panel.done_open);
    assert_eq!(panel.output_name, "Paper.en-de.pdf");
    assert_eq!(panel.output_url, "file:///data/translated/Paper.en-de.pdf");
    assert_eq!(panel.error, "");

    panel.apply_event(document_outcome(
        Err(DocumentFailure::Other("broken PDF".to_string())),
        String::new(),
    ));
    assert_eq!(panel.error, "broken PDF");
    assert!(matches!(
        document_outcome(Err(DocumentFailure::Cancelled), String::new()),
        DocumentEvent::Cancelled
    ));
}

#[test]
fn plain_documents_skip_image_translation() {
    let mut panel = DocumentPanel::new();
    panel.pick("notes.odt".to_string(), "odt", 10);
    assert!(!panel.is_pdf);
    assert_eq!(panel.file_size, "<1 KB");
    let request = panel.start("de".to_string(), "en".to_string()).unwrap();
    assert!(!request.translate_pdf_images);
    panel.cancel();
    assert!(!panel.progress_open);
}
