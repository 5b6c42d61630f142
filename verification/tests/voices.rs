use std::collections::BTreeMap;

use offline_translator::model::{TtsVoicePackOption, TtsVoicePickerRegion, TtsVoiceSelection};
use offline_translator::voices::{
    capitalize_first, installed_voice_items, manage_tts_picker_items, resolve_tts_voice_selection,
    selected_voice, InstalledTtsPack, PackDownloadState, TtsSpeakerEntry,
};

fn voice(pack_id: &str, display_name: &str, installed: bool) -> TtsVoicePackOption {
    TtsVoicePackOption {
        pack_id: pack_id.to_string(),
        display_name: display_name.to_string(),
        quality: Some("medium".to_string()),
        size_bytes: 16 * 1024 * 1024,
        installed,
    }
}

fn regions() -> Vec<TtsVoicePickerRegion> {
    vec![
        TtsVoicePickerRegion {
            code: "en_US".to_string(),
            display_name: "United States".to_string(),
            voices: vec![
                voice("us-amy", "amy", false),
                voice("us-hfc", "hfc_female", true),
            ],
        },
        TtsVoicePickerRegion {
            code: "en_GB".to_string(),
            display_name: "Great Britain".to_string(),
            voices: vec![voice("gb-alan", "alan", false)],
        },
    ]
}

fn pack(pack_id: &str, display_name: &str, speakers: &[&str]) -> InstalledTtsPack {
    InstalledTtsPack {
        pack_id: pack_id.to_string(),
        display_name: display_name.to_string(),
        voices: speakers
            .iter()
            .enumerate()
            .map(|(index, name)| TtsSpeakerEntry {
                name: name.to_string(),
                speaker_id: index as i32,
            })
            .collect(),
    }
}

fn no_downloads() -> Vec<(String, PackDownloadState<f32>)> {
    BTreeMap::new().into_iter().collect()
}

#[test]
fn single_speaker_packs_read_as_one_voice_and_multi_speaker_packs_group() {
    let items = installed_voice_items(vec![
        pack("us-amy", "amy", &["amy"]),
        pack("us-libritts", "libritts", &["speaker_0", "speaker_1"]),
    ]);
    let rows = items
        .iter()
        .map(|item| {
            (
                item.pack_id.to_string(),
                item.name.to_string(),
                item.display_name.to_string(),
                item.pack_display_name.to_string(),
            )
        })
        .collect::<Vec<_>>();
    assert_eq!(
        rows,
        vec![
            ("us-amy".into(), "".into(), "amy".into(), "".into()),
            (
                "us-libritts".into(),
                "speaker_0".into(),
                "speaker_0".into(),
                "libritts".into()
            ),
            (
                "us-libritts".into(),
                "speaker_1".into(),
                "speaker_1".into(),
                "libritts".into()
            ),
        ]
    );
}

#[test]
fn stored_selection_wins_only_while_installed() {
    let items = installed_voice_items(vec![
        pack("us-amy", "amy", &["amy"]),
        pack("gb-alan", "alan", &["alan"]),
    ]);
    let stored = TtsVoiceSelection {
        pack_id: "gb-alan".to_string(),
        speaker: None,
    };
    let resolved = resolve_tts_voice_selection(&items, Some(&stored)).unwrap();
    assert_eq!(resolved.pack_id.to_string(), "gb-alan");

    let stale = TtsVoiceSelection {
        pack_id: "gone".to_string(),
        speaker: None,
    };
    let resolved = resolve_tts_voice_selection(&items, Some(&stale)).unwrap();
    assert_eq!(resolved.pack_id.to_string(), "us-amy");

    assert!(resolve_tts_voice_selection(&[], None).is_none());
}

#[test]
fn a_speaker_selects_within_a_multi_speaker_pack() {
    let items = installed_voice_items(vec![pack("us-libritts", "libritts", &["a", "b"])]);
    let stored = TtsVoiceSelection {
        pack_id: "us-libritts".to_string(),
        speaker: Some("b".to_string()),
    };
    let resolved = resolve_tts_voice_selection(&items, Some(&stored)).unwrap();
    assert_eq!(resolved.name, "b");
    assert_eq!(resolve_tts_voice_selection(&items, None).unwrap().name, "a");
}

#[test]
fn installed_voices_lead_then_region_then_name() {
    let items = manage_tts_picker_items(&regions(), &no_downloads());
    let order = items
        .iter()
        .map(|item| (item.section_text.to_string(), item.pack_id.to_string()))
        .collect::<Vec<_>>();
    assert_eq!(
        order,
        vec![
            ("Downloaded".to_string(), "us-hfc".to_string()),
            ("Available".to_string(), "gb-alan".to_string()),
            ("Available".to_string(), "us-amy".to_string()),
        ]
    );
}

#[test]
fn region_only_named_when_several_regions() {
    let multi = manage_tts_picker_items(&regions(), &no_downloads());
    assert_eq!(
        multi[0].meta_text.to_string(),
        "Medium · 16 MB · United States"
    );

    let single = manage_tts_picker_items(&regions()[..1], &no_downloads());
    assert_eq!(single[0].meta_text.to_string(), "Medium · 16 MB");
}

#[test]
fn download_state_maps_onto_rows() {
    let downloads: Vec<(String, PackDownloadState<f32>)> = BTreeMap::from([
        ("us-amy".to_string(), PackDownloadState::Running(0.4)),
        ("gb-alan".to_string(), PackDownloadState::Queued),
    ])
    .into_iter()
    .collect();
    let items = manage_tts_picker_items(&regions(), &downloads);
    let by_id = |id: &str| {
        items
            .iter()
            .find(|item| item.pack_id.to_string() == id)
            .unwrap()
    };
    assert!(!by_id("us-amy").queued);
    assert_eq!(by_id("us-amy").progress(), 0.4);
    assert!(by_id("gb-alan").queued);
    assert_eq!(by_id("gb-alan").progress(), 0.0);
    assert!(!by_id("us-hfc").queued);
    assert_eq!(by_id("us-hfc").progress(), 0.0);
}

#[test]
fn a_voice_without_quality_says_so() {
    let regions = vec![TtsVoicePickerRegion {
        code: "pt_BR".to_string(),
        display_name: String::new(),
        voices: vec![TtsVoicePackOption {
            pack_id: "br-faber".to_string(),
            display_name: "faber".to_string(),
            quality: None,
            size_bytes: 512,
            installed: false,
        }],
    }];
    let items = manage_tts_picker_items(&regions, &no_downloads());
    assert_eq!(items[0].meta_text, "Default quality · <1 KB");
}

#[test]
fn equal_keys_keep_catalog_order() {
    let regions = vec![TtsVoicePickerRegion {
        code: "en_US".to_string(),
        display_name: "United States".to_string(),
        voices: vec![
            voice("first", "same", false),
            voice("second", "same", false),
        ],
    }];
    let items = manage_tts_picker_items(&regions, &no_downloads());
    assert_eq!(items[0].pack_id, "first");
    assert_eq!(items[1].pack_id, "second");
}

#[test]
fn the_first_letter_is_capitalized() {
    assert_eq!(capitalize_first("medium"), "Medium");
    assert_eq!(capitalize_first("élevé"), "Élevé");
    assert_eq!(capitalize_first(""), "");
    assert_eq!(capitalize_first("ß"), "SS");
}

#[test]
fn the_menu_shows_the_resolved_voice_or_the_default() {
    let items = installed_voice_items(vec![pack("us-libritts", "libritts", &["a", "b"])]);
    let stored = TtsVoiceSelection { pack_id: "us-libritts".to_string(), speaker: Some("b".to_string()) };
    let shown = selected_voice(&items, Some(&stored));
    assert_eq!((shown.pack_id.as_str(), shown.name.as_str(), shown.display_name.as_str()), ("us-libritts", "b", "b"));
    let none = selected_voice(&[], Some(&stored));
    assert_eq!((none.pack_id.as_str(), none.name.as_str(), none.display_name.as_str()), ("", "", "Default"));
}
