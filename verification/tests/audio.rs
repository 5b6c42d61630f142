use std::time::Duration;

use offline_translator::audio_error::AudioError;
use offline_translator::pcm::{PcmSamples, SampleRate, BYTES_PER_FRAME};
use offline_translator::playback::{
    bytes_for, check_stream_rate, samples_to_le_bytes, silence_for, ChunkedWrite, WriteAction,
};

fn rate(hz: i32) -> SampleRate {
    SampleRate::try_from(hz).unwrap()
}

#[test]
fn messages_name_the_offending_rates() {
    assert_eq!(
        AudioError::InvalidSampleRate { hz: -1 }.to_string(),
        "invalid sample rate: -1 Hz"
    );
    assert_eq!(
        AudioError::RateMismatch {
            stream_hz: 22_050,
            audio_hz: 16_000,
        }
        .to_string(),
        "mismatched sample rate for playback stream: expected 22050 Hz, got 16000 Hz"
    );
    assert_eq!(
        AudioError::UnsupportedFormat {
            requested_hz: 22_050,
            device_hz: 48_000,
        }
        .to_string(),
        "device rejected 16-bit mono at 22050 Hz; it renders at 48000 Hz"
    );
}

#[test]
fn detail_messages_keep_the_detail() {
    assert_eq!(
        AudioError::DeviceUnavailable { detail: "no server".to_string() }.to_string(),
        "audio device unavailable: no server"
    );
    assert_eq!(
        AudioError::WriteFailed { detail: "broken pipe".to_string() }.to_string(),
        "audio write failed: broken pipe"
    );
    assert_eq!(
        AudioError::InvalidSampleRate { hz: i32::MIN }.to_string(),
        "invalid sample rate: -2147483648 Hz"
    );
}

#[test]
fn a_frame_is_one_little_endian_i16() {
    assert_eq!(BYTES_PER_FRAME, size_of::<i16>());
}

#[test]
fn non_positive_rates_are_rejected() {
    assert_eq!(
        SampleRate::try_from(0),
        Err(AudioError::InvalidSampleRate { hz: 0 })
    );
    assert_eq!(
        SampleRate::try_from(-22_050),
        Err(AudioError::InvalidSampleRate { hz: -22_050 })
    );
    assert_eq!(rate(22_050).hz(), 22_050);
}

#[test]
fn frame_counts_truncate_to_whole_frames() {
    assert_eq!(rate(22_050).frames_in(Duration::from_secs(1)), 22_050);
    assert_eq!(rate(48_000).frames_in(Duration::from_millis(250)), 12_000);
    assert_eq!(rate(22_050).frames_in(Duration::from_millis(1)), 22);
    assert_eq!(rate(22_050).frames_in(Duration::ZERO), 0);
    assert_eq!(rate(8_000).frames_in(Duration::from_micros(1)), 0);
}

#[test]
fn frame_counts_survive_long_pauses() {
    assert_eq!(
        rate(48_000).frames_in(Duration::from_secs(3_600)),
        172_800_000
    );
}

#[test]
fn durations_and_frame_counts_round_trip() {
    let rate = rate(44_100);
    assert_eq!(rate.duration_of(44_100), Duration::from_secs(1));
    assert_eq!(rate.duration_of(0), Duration::ZERO);
    assert_eq!(rate.frames_in(rate.duration_of(2_048)), 2_048);
    assert_eq!(rate.duration_of(2_048), Duration::from_nanos(46_439_910));
}

#[test]
fn a_single_frame_rounds_its_duration_up() {
    // 1e9 / 3 is 333_333_333.33..., so one frame at 3 Hz lasts 333_333_334 ns.
    assert_eq!(rate(3).duration_of(1), Duration::from_nanos(333_333_334));
    assert_eq!(rate(3).frames_in(rate(3).duration_of(1)), 1);
}

#[test]
fn samples_keep_their_rate() {
    let samples = [1i16, -2, 3];
    let pcm = PcmSamples::new(rate(16_000), &samples);
    assert_eq!(pcm.rate(), rate(16_000));
    assert_eq!(pcm.samples(), &samples[..]);
}

#[test]
fn audio_at_another_rate_is_refused() {
    let samples = [0i16; 4];
    assert_eq!(
        check_stream_rate(rate(22_050), PcmSamples::new(rate(16_000), &samples)),
        Err(AudioError::RateMismatch { stream_hz: 22_050, audio_hz: 16_000 })
    );
    assert_eq!(
        check_stream_rate(rate(22_050), PcmSamples::new(rate(22_050), &samples)),
        Ok(())
    );
}

#[test]
fn samples_become_little_endian_bytes() {
    assert_eq!(
        samples_to_le_bytes(&[0x1234, -1, i16::MIN]),
        vec![0x34, 0x12, 0xff, 0xff, 0x00, 0x80]
    );
    assert!(samples_to_le_bytes(&[]).is_empty());
}

#[test]
fn silence_lasts_whole_frames() {
    let silence = silence_for(rate(8_000), Duration::from_millis(10));
    assert_eq!(silence.len(), 80);
    assert!(silence.iter().all(|&s| s == 0));
}

#[test]
fn buffer_targets_count_two_bytes_per_frame() {
    assert_eq!(bytes_for(rate(22_050), Duration::from_millis(400)), 17_640);
    assert_eq!(bytes_for(rate(22_050), Duration::from_millis(40)), 1_764);
}

#[test]
fn chunked_writes_cover_every_sample_once() {
    let mut write = ChunkedWrite::new(5_000);
    let mut chunks = Vec::new();
    while let Some(_) = write.pending() {
        match write.on_chunk(false) {
            WriteAction::Submit { start, end } => chunks.push((start, end)),
            WriteAction::Discard => unreachable!(),
        }
    }
    assert_eq!(chunks, vec![(0, 2_048), (2_048, 4_096), (4_096, 5_000)]);
}

#[test]
fn a_stop_discards_the_rest() {
    let mut write = ChunkedWrite::new(3_000);
    assert_eq!(write.pending(), Some((0, 2_048)));
    assert_eq!(write.on_chunk(false), WriteAction::Submit { start: 0, end: 2_048 });
    assert_eq!(write.on_chunk(true), WriteAction::Discard);
    assert_eq!(write.pending(), Some((2_048, 3_000)));
    assert_eq!(ChunkedWrite::new(0).pending(), None);
}
