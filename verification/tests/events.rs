use offline_translator::events::{
    handle_event, image_request, pick_file, pick_image, progress_total, translation_failure_text,
    translation_output, voice_menu, AppPaths, EventLoopState, IoEvent, LoadedVoices, LoopStep,
    OcrSettings, Pick, ProgressThrottle, ServiceError, VoiceEntry, PROGRESS_STEP_BYTES,
};
use offline_translator::model::FeatureKind;

fn paths() -> AppPaths {
    AppPaths { config: "/cfg".to_string(), data: "/data".to_string() }
}

#[test]
fn downloads_wait_for_the_directories() {
    let mut state = EventLoopState::new();
    let request = IoEvent::DownloadRequest {
        code: "de".to_string(),
        feature: FeatureKind::Core,
        selected_tts_pack_id: None,
    };
    match handle_event(&mut state, request.clone()) {
        LoopStep::SkipDownload { code } => assert_eq!(code, "de"),
        other => panic!("unexpected {other:?}"),
    }
    match handle_event(&mut state, IoEvent::SetAppPaths(paths())) {
        LoopStep::PrepareDirectories { data, config } => {
            assert_eq!((data.as_str(), config.as_str()), ("/data", "/cfg"))
        }
        other => panic!("unexpected {other:?}"),
    }
    match handle_event(&mut state, request) {
        LoopStep::Download { code, feature, selected_tts_pack_id, data_dir } => {
            assert_eq!(code, "de");
            assert_eq!(feature, FeatureKind::Core);
            assert_eq!(selected_tts_pack_id, None);
            assert_eq!(data_dir, "/data");
        }
        other => panic!("unexpected {other:?}"),
    }
}

#[test]
fn documents_need_directories_and_cancel_only_a_started_job() {
    let mut state = EventLoopState::new();
    let request = IoEvent::DocumentTranslationRequest {
        input_path: "/home/u/Report.PDF".to_string(),
        from: "en".to_string(),
        to: "de".to_string(),
        translate_pdf_images: true,
    };
    match handle_event(&mut state, request.clone()) {
        LoopStep::FailDocument { message } => assert_eq!(message, "app paths not initialized"),
        other => panic!("unexpected {other:?}"),
    }
    assert!(matches!(handle_event(&mut state, IoEvent::CancelDocumentTranslation), LoopStep::Idle));
    handle_event(&mut state, IoEvent::SetAppPaths(paths()));
    match handle_event(&mut state, request) {
        LoopStep::StartDocument { input_path, output_path, from, to, translate_pdf_images } => {
            assert_eq!(input_path, "/home/u/Report.PDF");
            assert_eq!(output_path, "/data/translated/Report.en-de.pdf");
            assert_eq!((from.as_str(), to.as_str()), ("en", "de"));
            assert!(translate_pdf_images);
        }
        other => panic!("unexpected {other:?}"),
    }
    assert!(state.document_job);
    assert!(matches!(
        handle_event(&mut state, IoEvent::CancelDocumentTranslation),
        LoopStep::CancelDocument
    ));
    assert!(matches!(handle_event(&mut state, IoEvent::CancelDocumentTranslation), LoopStep::Idle));
}

#[test]
fn empty_voice_names_mean_no_voice() {
    let mut state = EventLoopState::new();
    match handle_event(
        &mut state,
        IoEvent::SpeakRequest {
            language_code: "de".to_string(),
            text: "Hallo".to_string(),
            voice_name: String::new(),
        },
    ) {
        LoopStep::Speak { voice_name, text, .. } => {
            assert_eq!(voice_name, None);
            assert_eq!(text, "Hallo");
        }
        other => panic!("unexpected {other:?}"),
    }
    match handle_event(
        &mut state,
        IoEvent::RefreshTtsVoices {
            language_code: "de".to_string(),
            selected_voice_name: "thorsten".to_string(),
        },
    ) {
        LoopStep::LoadVoices { selected_voice_name, .. } => {
            assert_eq!(selected_voice_name.as_deref(), Some("thorsten"))
        }
        other => panic!("unexpected {other:?}"),
    }
    assert!(matches!(handle_event(&mut state, IoEvent::StopTts), LoopStep::StopSpeaking));
    assert!(matches!(handle_event(&mut state, IoEvent::Shutdown), LoopStep::Exit));
}

#[test]
fn translation_failures_are_worded_for_the_user() {
    let missing = ServiceError { missing_asset: true, message: "no model".to_string() };
    assert_eq!(
        translation_failure_text("en", "ja", missing.clone()),
        "Missing installed language pair en->ja"
    );
    let other = ServiceError { missing_asset: false, message: "engine crashed".to_string() };
    assert_eq!(translation_output("en", "ja", Err(other)), "engine crashed");
    assert_eq!(translation_output("en", "ja", Ok("こんにちは".to_string())), "こんにちは");
}

#[test]
fn voice_menu_leads_with_the_default() {
    let loaded = LoadedVoices {
        available: true,
        voices: vec![VoiceEntry { name: "amy".to_string(), display_name: "Amy".to_string() }],
        selected_voice_name: "amy".to_string(),
        selected_voice_display_name: "Amy".to_string(),
    };
    let menu = voice_menu(Ok(loaded));
    assert!(menu.available);
    let rows: Vec<(String, String)> =
        menu.items.iter().map(|e| (e.name.clone(), e.display_name.clone())).collect();
    assert_eq!(
        rows,
        vec![(String::new(), "Default".to_string()), ("amy".to_string(), "Amy".to_string())]
    );
    assert_eq!(menu.selected_name, "amy");

    let failed = voice_menu(Err("broken".to_string()));
    assert!(!failed.available);
    assert!(failed.items.is_empty());
    assert_eq!(failed.selected_name, "");
    assert_eq!(failed.selected_display_name, "Default");
}

#[test]
fn progress_is_reported_once_per_mebibyte() {
    assert_eq!(progress_total(0), 1);
    assert_eq!(progress_total(4096), 4096);
    let mut throttle = ProgressThrottle::new();
    assert!(!throttle.observe(PROGRESS_STEP_BYTES - 1));
    assert!(throttle.observe(PROGRESS_STEP_BYTES));
    assert_eq!(throttle.last_update, PROGRESS_STEP_BYTES);
    assert!(!throttle.observe(PROGRESS_STEP_BYTES + 10));
    assert!(!throttle.observe(3));
    assert!(throttle.observe(2 * PROGRESS_STEP_BYTES + 5));
    assert_eq!(throttle.last_update, 2 * PROGRESS_STEP_BYTES + 5);
}

#[test]
fn image_requests_clamp_negative_settings() {
    let ocr = OcrSettings {
        min_confidence: -5,
        max_image_size: 1500,
        background_mode: "Dark Background".to_string(),
    };
    match image_request("/p.png".to_string(), "en".to_string(), "fr".to_string(), &ocr) {
        IoEvent::ImageTranslationRequest {
            image_path,
            min_confidence,
            max_image_size,
            background_mode,
            ..
        } => {
            assert_eq!(image_path, "/p.png");
            assert_eq!(min_confidence, 0);
            assert_eq!(max_image_size, 1500);
            assert_eq!(background_mode, "Dark Background");
        }
        other => panic!("unexpected {other:?}"),
    }
}

#[test]
fn picks_resolve_or_refuse() {
    assert!(matches!(pick_image(false, ""), Pick::Ignored));
    match pick_image(true, "file:///x.png") {
        Pick::Refused { message } => assert_eq!(message, "OCR is disabled in settings"),
        other => panic!("unexpected {other:?}"),
    }
    match pick_image(false, "file:///home/u/My%20Photo.png") {
        Pick::Path(path) => assert_eq!(path, "/home/u/My Photo.png"),
        other => panic!("unexpected {other:?}"),
    }
    match pick_file("file:///tmp/a%2Eodt") {
        Pick::Path(path) => assert_eq!(path, "/tmp/a.odt"),
        other => panic!("unexpected {other:?}"),
    }
    assert!(matches!(pick_file(""), Pick::Ignored));
}
