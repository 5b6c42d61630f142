use std::io::Write;

use offline_translator::catalog::bundled_index_text;
use offline_translator::dwrite_source::{wide, ProbeSource, TextSpan};
use offline_translator::font_query::{FontRequest, LocaleName, Probe, Script};
use offline_translator::fontconfig_query::{
    face_index, generic_family_for, keep_chain, lang_tag_for, pattern_for, MAX_CHAIN,
};
use offline_translator::image_ocr::{fit_image, ImageFit};
use offline_translator::playback::Playback;
use offline_translator::startup::{cli_mode, fallback_home, join_unix, unix_app_paths, CliMode};
use offline_translator::text::{parse_i32, parse_u32};
use offline_translator::wasapi_format::HrCode;
use offline_translator::pcm::SampleRate;
use offline_translator::wasapi_stream::{
    device_error, drain_wait, enter_apartment, half_buffer_duration, sleep_step, write_error, BufferedWrite, ComApartment, SleepStep, RPC_E_CHANGED_MODE,
};
use offline_translator::audio_error::AudioError;

#[test]
fn language_tags_prefer_the_request() {
    assert_eq!(lang_tag_for(Script::Han, "zh_TW"), "zh");
    assert_eq!(lang_tag_for(Script::Han, "JA-jp"), "ja");
    assert_eq!(lang_tag_for(Script::Han, ""), "zh-cn");
    assert_eq!(lang_tag_for(Script::Hiragana, "und-Hira"), "ja");
    assert_eq!(lang_tag_for(Script::Cyrillic, "-x"), "ru");
    assert_eq!(lang_tag_for(Script::Other, ""), "en");
    assert_eq!(generic_family_for(Script::Hangul), "sans-serif");
}

#[test]
fn patterns_and_chains() {
    let request = FontRequest {
        script: Script::Arabic,
        language: String::new(),
        bold: true,
        italic: false,
        monospace: false,
    };
    let pattern = pattern_for(&request);
    assert_eq!(pattern.lang, "ar");
    assert_eq!(pattern.family, Some("sans-serif"));
    assert!(pattern.bold && !pattern.italic && !pattern.monospace_spacing);
    let mono = pattern_for(&FontRequest { monospace: true, ..request });
    assert_eq!(mono.family, None);
    assert!(mono.monospace_spacing);
    assert_eq!(face_index(None), 0);
    assert_eq!(face_index(Some(-3)), 0);
    assert_eq!(face_index(Some(2)), 2);
    let chain = keep_chain((0..20).collect::<Vec<u32>>());
    assert_eq!(chain.len(), MAX_CHAIN);
    assert_eq!(chain[7], 7);
    assert_eq!(keep_chain(vec![1, 2]), vec![1, 2]);
}

#[test]
fn xdg_directories() {
    assert_eq!(join_unix("/home/u", ".config"), "/home/u/.config");
    assert_eq!(join_unix("/home/u/", ".config"), "/home/u/.config");
    assert_eq!(join_unix("/home/u", "/abs"), "/abs");
    assert_eq!(join_unix("", "rel"), "rel");
    assert_eq!(fallback_home("anna"), "/home/anna");
    let paths = unix_app_paths("/home/anna", None, Some("/xdg/cfg".to_string()));
    assert_eq!(paths.data, "/home/anna/.local/share/dev.davidv.translator");
    assert_eq!(paths.config, "/xdg/cfg/dev.davidv.translator");
}

fn args(list: &[&str]) -> Vec<String> {
    list.iter().map(|s| s.to_string()).collect()
}

#[test]
fn command_line_modes() {
    assert!(matches!(cli_mode(&args(&["app"]), true), CliMode::Gui));
    match cli_mode(&args(&["app", "--bench-live", "img.png", "de"]), true) {
        CliMode::BenchLive { image, from, to, max_side } => {
            assert_eq!((image.as_str(), from.as_str(), to.as_str(), max_side), ("img.png", "de", "nl", 1000))
        }
        other => panic!("unexpected {other:?}"),
    }
    match cli_mode(&args(&["app", "--bench-live", "i", "a", "b", "640"]), true) {
        CliMode::BenchLive { max_side, .. } => assert_eq!(max_side, 640),
        other => panic!("unexpected {other:?}"),
    }
    assert!(matches!(cli_mode(&args(&["app", "--bench-live", "i"]), false), CliMode::Gui));
    match cli_mode(&args(&["app", "--pdf-images", "--translate-doc", "a.pdf", "en", "fr"]), true) {
        CliMode::TranslateDoc { input, from, to, pdf_images, output } => {
            assert_eq!((input.as_str(), from.as_str(), to.as_str()), ("a.pdf", "en", "fr"));
            assert!(pdf_images);
            assert_eq!(output, "a.pdf.en-fr.out");
        }
        other => panic!("unexpected {other:?}"),
    }
    match cli_mode(&args(&["app", "--translate-doc"]), true) {
        CliMode::TranslateDoc { input, from, to, pdf_images, output } => {
            assert_eq!((input.as_str(), from.as_str(), to.as_str()), ("", "en", "nl"));
            assert!(!pdf_images);
            assert_eq!(output, ".en-nl.out");
        }
        other => panic!("unexpected {other:?}"),
    }
}

#[test]
fn integers_parse_as_std_does() {
    for text in ["0", "+7", "-7", "2147483647", "-2147483648", "2147483648", "", "-", "+", "1a", " 1", "007"] {
        assert_eq!(parse_i32(text), text.parse::<i32>().ok(), "{text:?}");
    }
    for text in ["0", "+7", "-0", "4294967295", "4294967296", "", "+", "12x", "99999999999999"] {
        assert_eq!(parse_u32(text), text.parse::<u32>().ok(), "{text:?}");
    }
}

#[test]
fn wide_strings_end_in_zero() {
    assert_eq!(wide("A"), vec![65, 0]);
    assert_eq!(wide(""), vec![0]);
    assert_eq!(wide("é😀"), "é😀".encode_utf16().chain(std::iter::once(0)).collect::<Vec<u16>>());
    let source = ProbeSource::new(Probe('😀'), &LocaleName("ja-JP".to_string()));
    assert_eq!(source.text, vec![0xD83D, 0xDE00]);
    assert_eq!(source.locale, wide("ja-JP"));
    assert_eq!(source.text_at(0), Some(TextSpan { start: 0, length: 2 }));
    assert_eq!(source.text_at(1), Some(TextSpan { start: 1, length: 1 }));
    assert_eq!(source.text_at(2), None);
    assert_eq!(source.text_before(0), None);
    assert_eq!(source.text_before(2), Some(TextSpan { start: 0, length: 2 }));
    assert_eq!(source.text_before(3), None);
    assert_eq!(source.rest_length(1), 1);
    assert_eq!(source.rest_length(5), 0);
}

#[test]
fn wasapi_decisions() {
    assert_eq!(enter_apartment(HrCode(RPC_E_CHANGED_MODE), "x"), Ok(ComApartment::Inherited));
    assert_eq!(enter_apartment(HrCode(1), "x"), Ok(ComApartment::Owned));
    match enter_apartment(HrCode(-2147024882), "Out of memory") {
        Err(AudioError::DeviceUnavailable { detail }) => {
            assert_eq!(detail, "CoInitializeEx failed: Out of memory (0x8007000E)")
        }
        other => panic!("unexpected {other:?}"),
    }
    let mut write = BufferedWrite::new(10);
    assert_eq!(write.next_chunk(8, 8), None);
    assert_eq!(write.next_chunk(8, 2), Some((0, 6)));
    write.advance(6);
    assert_eq!(write.next_chunk(8, 0), Some((6, 10)));
    write.advance(10);
    assert!(write.done());
    assert_eq!(sleep_step(true, 5), SleepStep::Finish(Playback::Interrupted));
    assert_eq!(sleep_step(false, 0), SleepStep::Finish(Playback::Completed));
    assert_eq!(sleep_step(false, 5), SleepStep::Sleep(5));
    assert_eq!(sleep_step(false, 90_000_000), SleepStep::Sleep(20_000_000));
}

#[test]
fn images_are_kept_resized_or_refused() {
    assert_eq!(fit_image("a.png", 800, 600, 1000), Ok(ImageFit::Keep { width: 800, height: 600 }));
    assert_eq!(fit_image("a.png", 4000, 3000, 1000), Ok(ImageFit::Resize { width: 1000, height: 750 }));
    assert_eq!(fit_image("/x/a.png", 0, 10, 1000), Err("Failed to load image: /x/a.png".to_string()));
}

#[test]
fn bundled_index_is_gunzipped() {
    let mut encoder = flate2::write::GzEncoder::new(Vec::new(), flate2::Compression::default());
    encoder.write_all(br#"{"languages":[]}"#).unwrap();
    let compressed = encoder.finish().unwrap();
    assert_eq!(bundled_index_text(&compressed).as_deref(), Some(r#"{"languages":[]}"#));
    assert_eq!(bundled_index_text(b"not gzip"), None);
}

#[test]
fn wasapi_errors_and_waits() {
    match device_error("IAudioClient::Start", HrCode(-2147024882), "Out of memory") {
        AudioError::DeviceUnavailable { detail } => {
            assert_eq!(detail, "IAudioClient::Start failed: Out of memory (0x8007000E)")
        }
        other => panic!("unexpected {other:?}"),
    }
    match write_error("IAudioRenderClient::GetBuffer", HrCode(-2147024882), "Out of memory") {
        AudioError::WriteFailed { detail } => {
            assert_eq!(detail, "IAudioRenderClient::GetBuffer failed: Out of memory (0x8007000E)")
        }
        other => panic!("unexpected {other:?}"),
    }
    let rate = SampleRate::try_from(48_000).unwrap();
    assert_eq!(half_buffer_duration(rate, 4800), std::time::Duration::from_millis(50));
    assert_eq!(drain_wait(rate, 0), None);
    assert_eq!(drain_wait(rate, 24), Some(std::time::Duration::from_millis(1)));
    assert_eq!(drain_wait(rate, 480), Some(std::time::Duration::from_millis(10)));
}
