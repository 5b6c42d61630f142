use std::sync::{Mutex, MutexGuard};

use offline_translator::events::ServiceError;
use offline_translator::pcm::SampleRate;
use offline_translator::playback::StopSignal;
use offline_translator::pulse::{AudioSink, PcmDevice};
use offline_translator::tts::{
    finish_stream, open_stream, panic_report, planned_chunks, play_chunk, speech_failure, stream_end,
    StreamEnd,
};

static WRITES: Mutex<Vec<String>> = Mutex::new(Vec::new());
static SERIAL: Mutex<()> = Mutex::new(());

fn serial() -> MutexGuard<'static, ()> {
    SERIAL.lock().unwrap_or_else(|e| e.into_inner())
}

fn record(entry: String) {
    WRITES.lock().unwrap().push(entry);
}

fn taken() -> Vec<String> {
    std::mem::take(&mut *WRITES.lock().unwrap())
}

struct Speaker;

impl PcmDevice for Speaker {
    fn connect(_rate: SampleRate, _target: u32, _prebuffer: u32) -> Result<Self, String> {
        Ok(Speaker)
    }
    fn write_bytes(&self, bytes: &[u8]) -> Result<(), String> {
        record(format!("write {}", bytes.len()));
        Ok(())
    }
    fn drain(&self) -> Result<(), String> {
        record("drain".to_string());
        Ok(())
    }
    fn flush(&self) -> Result<(), String> {
        record("flush".to_string());
        Ok(())
    }
}

struct Never;

impl StopSignal for Never {
    fn should_stop(&mut self) -> bool {
        false
    }
}

#[test]
fn a_chunk_plays_then_pauses() {
    let _guard = serial();
    taken();
    let (rate, mut sink) = open_stream::<Speaker>(16_000).unwrap();
    assert_eq!(rate.hz(), 16_000);
    let samples = vec![1i16; 100];
    play_chunk(&mut sink, rate, &samples, Some(10), &mut Never).unwrap();
    // 100 samples, then 10 ms of silence: 160 frames of two bytes.
    assert_eq!(taken(), vec!["write 200", "write 320"]);
    play_chunk(&mut sink, rate, &samples, Some(0), &mut Never).unwrap();
    play_chunk(&mut sink, rate, &samples, None, &mut Never).unwrap();
    assert_eq!(taken(), vec!["write 200", "write 200"]);
    assert_eq!(
        play_chunk(&mut sink, rate, &samples, Some(-5), &mut Never),
        Err("negative pause between speech chunks: -5 ms".to_string())
    );
    assert_eq!(taken(), vec!["write 200"]);
}

#[test]
fn chunks_at_another_rate_are_refused() {
    let _guard = serial();
    taken();
    let (_, mut sink) = open_stream::<Speaker>(16_000).unwrap();
    let other = SampleRate::try_from(22_050).unwrap();
    assert_eq!(
        play_chunk(&mut sink, other, &[0, 0], None, &mut Never),
        Err("mismatched sample rate for playback stream: expected 16000 Hz, got 22050 Hz".to_string())
    );
    assert!(taken().is_empty());
}

#[test]
fn streams_open_only_at_a_positive_rate() {
    match open_stream::<Speaker>(0) {
        Err(message) => assert_eq!(message, "invalid sample rate: 0 Hz"),
        Ok(_) => panic!("a zero rate opened"),
    }
}

#[test]
fn a_stream_drains_or_drops_at_the_end() {
    let _guard = serial();
    taken();
    let mut sink: AudioSink<Speaker> = AudioSink::open(SampleRate::try_from(8_000).unwrap()).unwrap();
    assert_eq!(finish_stream(&mut sink, false), Ok(()));
    assert_eq!(finish_stream(&mut sink, true), Ok(()));
    assert_eq!(taken(), vec!["drain", "flush"]);
    assert_eq!(stream_end(true), StreamEnd::Discard);
    assert_eq!(stream_end(false), StreamEnd::Drain);
}

#[test]
fn plans_and_failures_are_worded() {
    assert_eq!(planned_chunks::<u8>("de", Ok(vec![1, 2])), Ok(vec![1, 2]));
    assert_eq!(planned_chunks::<u8>("de", Ok(vec![])), Err("Nothing to speak".to_string()));
    let missing = ServiceError { missing_asset: true, message: String::new() };
    assert_eq!(
        planned_chunks::<u8>("de", Err(missing.clone())),
        Err("No TTS voice installed for de".to_string())
    );
    assert_eq!(speech_failure("fr", missing), "No TTS voice installed for fr");
    let other = ServiceError { missing_asset: false, message: "model corrupt".to_string() };
    assert_eq!(speech_failure("fr", other), "model corrupt");
    assert_eq!(panic_report(Some("index out of range".to_string())), "TTS runtime panicked: index out of range");
    assert_eq!(panic_report(None), "TTS runtime panicked");
}
