use offline_translator::model::{Language, TtsVoicePackOption, TtsVoicePickerRegion, TtsVoiceSelection};
use offline_translator::speech_ui::{
    delete_pack, is_blank, queue_pack_download, record_pack_progress, speak_decision,
    tts_available_for, voice_pack_action, SpeakDecision, SpeechWarmup, VoicePackAction,
};
use offline_translator::text_map::TextMap;
use offline_translator::voices::PackDownloadState;

fn selection(pack: &str) -> TtsVoiceSelection {
    TtsVoiceSelection { pack_id: pack.to_string(), speaker: None }
}

#[test]
fn a_map_gives_back_what_was_put() {
    let mut map: TextMap<u32> = TextMap::new();
    assert_eq!(map.get("de"), None);
    map.insert("de".to_string(), 1);
    map.insert("fr".to_string(), 2);
    map.insert("de".to_string(), 3);
    assert_eq!(map.get("de"), Some(&3));
    assert_eq!(map.get("fr"), Some(&2));
    assert_eq!(map.entries().len(), 2);
    assert!(map.remove("de"));
    assert!(!map.remove("de"));
    assert_eq!(map.get("de"), None);
    assert_eq!(map.get("fr"), Some(&2));
}

#[test]
fn speaker_button_stops_ignores_or_speaks() {
    let mut voices = TextMap::new();
    voices.insert("de".to_string(), selection("de-thorsten"));
    assert!(matches!(
        speak_decision(true, false, "Hallo".to_string(), true, "de", &voices),
        SpeakDecision::Stop
    ));
    assert!(matches!(
        speak_decision(false, false, " \n\t".to_string(), true, "de", &voices),
        SpeakDecision::Ignore
    ));
    assert!(matches!(
        speak_decision(false, false, "Hallo".to_string(), false, "de", &voices),
        SpeakDecision::Ignore
    ));
    match speak_decision(false, false, "Hallo".to_string(), true, "de", &voices) {
        SpeakDecision::Speak { language_code, text, voice } => {
            assert_eq!(language_code, "de");
            assert_eq!(text, "Hallo");
            assert_eq!(voice, Some(selection("de-thorsten")));
        }
        other => panic!("unexpected {other:?}"),
    }
    match speak_decision(false, false, "Hola".to_string(), true, "es", &voices) {
        SpeakDecision::Speak { voice, .. } => assert_eq!(voice, None),
        other => panic!("unexpected {other:?}"),
    }
    assert!(is_blank(""));
    assert!(!is_blank(" a "));
}

#[test]
fn warmup_loads_each_language_once() {
    let mut warm = SpeechWarmup::new();
    assert_eq!(warm.refresh(true, "de").as_deref(), Some("de"));
    assert_eq!(warm.refresh(true, "de"), None);
    assert_eq!(warm.refresh(true, "fr").as_deref(), Some("fr"));
    assert_eq!(warm.refresh(false, "fr"), None);
    assert_eq!(warm.prewarmed, "");
    assert_eq!(warm.refresh(true, "fr").as_deref(), Some("fr"));
    warm.clear();
    assert_eq!(warm.refresh(true, "fr").as_deref(), Some("fr"));
    assert_eq!(warm.refresh(true, ""), None);
}

fn pack(id: &str, installed: bool) -> TtsVoicePackOption {
    TtsVoicePackOption {
        pack_id: id.to_string(),
        display_name: id.to_string(),
        quality: None,
        size_bytes: 1,
        installed,
    }
}

fn with_regions(regions: Vec<Vec<TtsVoicePackOption>>) -> Language {
    Language {
        code: "en".to_string(),
        tts_installed: true,
        tts_voice_picker_regions: regions
            .into_iter()
            .map(|voices| TtsVoicePickerRegion {
                code: "r".to_string(),
                display_name: String::new(),
                voices,
            })
            .collect(),
        ..Language::default()
    }
}

#[test]
fn asking_for_speech_downloads_or_opens_the_picker() {
    assert!(matches!(
        voice_pack_action(&with_regions(vec![])),
        VoicePackAction::Download { pack_id: None }
    ));
    assert!(matches!(
        voice_pack_action(&with_regions(vec![vec![], vec![]])),
        VoicePackAction::Download { pack_id: None }
    ));
    match voice_pack_action(&with_regions(vec![vec![], vec![pack("us-amy", false)]])) {
        VoicePackAction::Download { pack_id: Some(id) } => assert_eq!(id, "us-amy"),
        other => panic!("unexpected {other:?}"),
    }
    assert!(matches!(
        voice_pack_action(&with_regions(vec![vec![pack("us-amy", true)]])),
        VoicePackAction::OpenPicker
    ));
    assert!(matches!(
        voice_pack_action(&with_regions(vec![vec![pack("a", false)], vec![pack("b", false)]])),
        VoicePackAction::OpenPicker
    ));
    let languages = vec![with_regions(vec![])];
    assert!(tts_available_for(&languages, "en"));
    assert!(!tts_available_for(&languages, "de"));
}

#[test]
fn deleting_a_pack_forgets_a_voice_inside_it() {
    let mut voices = TextMap::new();
    voices.insert("en".to_string(), selection("us-amy"));
    assert!(delete_pack(&mut voices, "", "us-amy", "en", true).is_none());
    assert!(voices.get("en").is_some());
    let other = delete_pack(&mut voices, "en", "gb-alan", "de", true).unwrap();
    assert!(!other.stop_speech && !other.selection_dropped);
    assert!(voices.get("en").is_some());
    let done = delete_pack(&mut voices, "en", "us-amy", "en", true).unwrap();
    assert!(done.stop_speech && done.selection_dropped);
    assert!(voices.get("en").is_none());
}

#[test]
fn pack_downloads_queue_run_and_end() {
    let mut downloads: TextMap<PackDownloadState<u8>> = TextMap::new();
    assert!(!queue_pack_download(&mut downloads, "", "us-amy".to_string()));
    assert!(downloads.get("us-amy").is_none());
    assert!(queue_pack_download(&mut downloads, "en", "us-amy".to_string()));
    assert_eq!(downloads.get("us-amy"), Some(&PackDownloadState::Queued));
    record_pack_progress(&mut downloads, "us-amy".to_string(), Some(40));
    assert_eq!(downloads.get("us-amy"), Some(&PackDownloadState::Running(40)));
    record_pack_progress(&mut downloads, "us-amy".to_string(), None);
    assert!(downloads.get("us-amy").is_none());
}
