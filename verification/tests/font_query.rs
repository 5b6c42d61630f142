use offline_translator::font_query::{
    canonical_tag, locale_name, plan, representative_probe, BaseFamily, FontRequest, FontStyle,
    FontWeight, LocaleName, Probe, Script, BOLD, MONO_FAMILY, REGULAR, UI_FAMILY,
};

const ALL_SCRIPTS: [Script; 30] = [
    Script::Latin,
    Script::Cyrillic,
    Script::Greek,
    Script::Armenian,
    Script::Hebrew,
    Script::Arabic,
    Script::Devanagari,
    Script::Bengali,
    Script::Gurmukhi,
    Script::Gujarati,
    Script::Oriya,
    Script::Tamil,
    Script::Telugu,
    Script::Kannada,
    Script::Malayalam,
    Script::Sinhala,
    Script::Thai,
    Script::Lao,
    Script::Tibetan,
    Script::Myanmar,
    Script::Georgian,
    Script::Ethiopic,
    Script::Khmer,
    Script::Han,
    Script::Hiragana,
    Script::Katakana,
    Script::Hangul,
    Script::Common,
    Script::Inherited,
    Script::Other,
];

fn request(script: Script) -> FontRequest {
    FontRequest {
        script,
        language: String::new(),
        bold: false,
        italic: false,
        monospace: false,
    }
}

#[test]
fn chain_leads_with_the_requested_script_and_never_repeats() {
    for script in ALL_SCRIPTS {
        let query = plan(&request(script));
        assert_eq!(query.probes[0], representative_probe(script));
        for (i, probe) in query.probes.iter().enumerate() {
            assert!(
                !query.probes[..i].contains(probe),
                "{script:?} repeats {probe:?}"
            );
        }
    }
}

#[test]
fn latin_request_does_not_probe_latin_twice() {
    assert_eq!(
        plan(&request(Script::Latin)).probes,
        vec![Probe('A'), Probe('★')]
    );
    assert_eq!(
        plan(&request(Script::Han)).probes,
        vec![Probe('一'), Probe('A'), Probe('★')]
    );
}

#[test]
fn bcp47_hint_wins_over_script_default() {
    assert_eq!(locale_name(Script::Han, "ja"), LocaleName("ja".into()));
    assert_eq!(
        locale_name(Script::Han, "zh-Hant"),
        LocaleName("zh-Hant".into())
    );
    assert_eq!(
        locale_name(Script::Latin, "PT_BR"),
        LocaleName("pt-BR".into())
    );
}

#[test]
fn a_bare_hint_is_qualified_by_the_script_default() {
    assert_eq!(locale_name(Script::Han, "zh"), LocaleName("zh-Hans".into()));
    assert_eq!(
        locale_name(Script::Han, "zh_hant"),
        LocaleName("zh-Hant".into())
    );
    assert_eq!(
        locale_name(Script::Hiragana, "ja"),
        LocaleName("ja-JP".into())
    );
    assert_eq!(locale_name(Script::Latin, "en"), LocaleName("en-US".into()));
    assert_eq!(locale_name(Script::Latin, "pt"), LocaleName("pt".into()));
}

#[test]
fn tags_are_canonically_cased() {
    assert_eq!(canonical_tag("zh-hant"), "zh-Hant");
    assert_eq!(canonical_tag("PT-br"), "pt-BR");
    assert_eq!(canonical_tag("sr-latn-rs"), "sr-Latn-RS");
}

#[test]
fn subtags_are_cased_by_byte_length() {
    assert_eq!(canonical_tag("EN-us-X-abcde"), "en-US-x-abcde");
    assert_eq!(canonical_tag("de--ch"), "de--CH");
    assert_eq!(canonical_tag("es-419"), "es-419");
    assert_eq!(canonical_tag(""), "");
}

#[test]
fn absent_or_undetermined_hint_falls_to_script_default() {
    assert_eq!(locale_name(Script::Han, ""), LocaleName("zh-Hans".into()));
    assert_eq!(
        locale_name(Script::Han, "und"),
        LocaleName("zh-Hans".into())
    );
    assert_eq!(
        locale_name(Script::Katakana, "und-Jpan"),
        LocaleName("ja-JP".into())
    );
    assert_eq!(locale_name(Script::Common, ""), LocaleName("en-US".into()));
}

#[test]
fn style_flags_pick_family_weight_and_slant() {
    let plain = plan(&request(Script::Latin));
    assert_eq!(plain.base_family, BaseFamily(UI_FAMILY));
    assert_eq!(plain.weight, FontWeight(REGULAR));
    assert_eq!(plain.style, FontStyle::Upright);

    let fancy = plan(&FontRequest {
        bold: true,
        italic: true,
        monospace: true,
        ..request(Script::Latin)
    });
    assert_eq!(fancy.base_family, BaseFamily(MONO_FAMILY));
    assert_eq!(fancy.weight, FontWeight(BOLD));
    assert_eq!(fancy.style, FontStyle::Italic);
}

#[test]
fn recasing_keeps_length_and_letters_and_is_settled() {
    for tag in ["ZH-HANT", "pt-br", "sr-latn-rs", "EN-us-X-abcde", "de--ch", "es-419", "", "-"] {
        let cased = canonical_tag(tag);
        assert_eq!(cased.len(), tag.len(), "{tag}");
        assert!(cased.eq_ignore_ascii_case(tag), "{tag}");
        assert_eq!(canonical_tag(&cased), cased, "{tag}");
        assert_eq!(canonical_tag(&tag.to_ascii_uppercase()), cased, "{tag}");
    }
    assert_eq!(canonical_tag("ZH-HANT"), "zh-Hant");
}
