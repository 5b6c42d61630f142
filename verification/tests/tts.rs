use offline_translator::tts::{chunk_preview, pause_after_chunk, stop_playback, PlaybackGenerations};

#[test]
fn previews_collapse_whitespace() {
    assert_eq!(chunk_preview("  hello \n\t world  "), "hello world");
    assert_eq!(chunk_preview(""), "");
    assert_eq!(chunk_preview("a\u{3000}b"), "a b");
}

#[test]
fn long_previews_are_cut_at_sixty_four_characters() {
    let text = "x".repeat(65);
    assert_eq!(chunk_preview(&text), format!("{}...", "x".repeat(64)));
    let exact = "y".repeat(64);
    assert_eq!(chunk_preview(&exact), exact);
    let wide = "é".repeat(70);
    assert_eq!(chunk_preview(&wide), format!("{}...", "é".repeat(64)));
}

#[test]
fn a_stop_retires_the_running_playback() {
    let mut generations = PlaybackGenerations::new();
    let first = generations.begin();
    assert!(generations.is_current(first));
    let second = generations.begin();
    assert!(!generations.is_current(first));
    assert!(generations.is_current(second));
    stop_playback(&mut generations);
    assert!(!generations.is_current(second));
}

#[test]
fn generations_wrap_around() {
    let mut generations = PlaybackGenerations { current: u64::MAX };
    assert_eq!(generations.begin(), 0);
}

#[test]
fn pauses_between_chunks() {
    assert_eq!(pause_after_chunk(None), Ok(None));
    assert_eq!(pause_after_chunk(Some(0)), Ok(None));
    assert_eq!(pause_after_chunk(Some(250)), Ok(Some(250)));
    assert_eq!(
        pause_after_chunk(Some(-5)),
        Err("negative pause between speech chunks: -5 ms".to_string())
    );
}
