use std::sync::{Mutex, MutexGuard};
use std::time::Duration;

use offline_translator::audio_error::AudioError;
use offline_translator::pcm::{PcmSamples, SampleRate};
use offline_translator::playback::{write_progress, Playback, StopSignal, WriteAction, WriteProgress};
use offline_translator::pulse::{server_outcome, AudioSink, PcmDevice, PulseBackend};

static LOG: Mutex<Vec<String>> = Mutex::new(Vec::new());
static FAIL: Mutex<Option<&'static str>> = Mutex::new(None);
static SERIAL: Mutex<()> = Mutex::new(());

fn serial() -> MutexGuard<'static, ()> {
    SERIAL.lock().unwrap_or_else(|e| e.into_inner())
}

fn log(entry: String) {
    LOG.lock().unwrap().push(entry);
}

fn take_log() -> Vec<String> {
    std::mem::take(&mut *LOG.lock().unwrap())
}

fn fail_on(op: Option<&'static str>) {
    *FAIL.lock().unwrap() = op;
}

fn failing(op: &str) -> Option<String> {
    match *FAIL.lock().unwrap() {
        Some(which) if which == op => Some(format!("{op} refused")),
        _ => None,
    }
}

struct FakeDevice;

impl PcmDevice for FakeDevice {
    fn connect(rate: SampleRate, target_bytes: u32, prebuffer_bytes: u32) -> Result<Self, String> {
        log(format!("connect {} {target_bytes} {prebuffer_bytes}", rate.hz()));
        match failing("connect") {
            Some(message) => Err(message),
            None => Ok(FakeDevice),
        }
    }
    fn write_bytes(&self, bytes: &[u8]) -> Result<(), String> {
        log(format!("write {}", bytes.len()));
        match failing("write") {
            Some(message) => Err(message),
            None => Ok(()),
        }
    }
    fn drain(&self) -> Result<(), String> {
        log("drain".to_string());
        match failing("drain") {
            Some(message) => Err(message),
            None => Ok(()),
        }
    }
    fn flush(&self) -> Result<(), String> {
        log("flush".to_string());
        match failing("flush") {
            Some(message) => Err(message),
            None => Ok(()),
        }
    }
}

struct StopAfter(usize);

impl StopSignal for StopAfter {
    fn should_stop(&mut self) -> bool {
        if self.0 == 0 {
            true
        } else {
            self.0 -= 1;
            false
        }
    }
}

fn rate(hz: i32) -> SampleRate {
    SampleRate::try_from(hz).unwrap()
}

#[test]
fn opening_asks_for_the_buffer_targets() {
    let _guard = serial();
    take_log();
    let mut sink: AudioSink<FakeDevice> = AudioSink::open(rate(22_050)).unwrap();
    assert_eq!(sink.sample_rate(), rate(22_050));
    assert_eq!(take_log(), vec!["connect 22050 17640 1764"]);
}

#[test]
fn audio_is_written_in_chunks() {
    let _guard = serial();
    take_log();
    let mut sink: AudioSink<FakeDevice> = AudioSink::open(rate(16_000)).unwrap();
    take_log();
    let samples = vec![0i16; 5_000];
    let played = sink.play(PcmSamples::new(rate(16_000), &samples), &mut StopAfter(10)).unwrap();
    assert_eq!(played, Playback::Completed);
    assert_eq!(take_log(), vec!["write 4096", "write 4096", "write 1808"]);
}

#[test]
fn a_stop_flushes_and_interrupts() {
    let _guard = serial();
    take_log();
    let mut sink: AudioSink<FakeDevice> = AudioSink::open(rate(16_000)).unwrap();
    take_log();
    let samples = vec![0i16; 5_000];
    let played = sink.play(PcmSamples::new(rate(16_000), &samples), &mut StopAfter(1)).unwrap();
    assert_eq!(played, Playback::Interrupted);
    assert_eq!(take_log(), vec!["write 4096", "flush"]);
}

#[test]
fn audio_at_the_wrong_rate_is_refused_before_writing() {
    let _guard = serial();
    take_log();
    let mut sink: AudioSink<FakeDevice> = AudioSink::open(rate(16_000)).unwrap();
    take_log();
    let samples = vec![0i16; 10];
    let result = sink.play(PcmSamples::new(rate(22_050), &samples), &mut StopAfter(10));
    assert_eq!(result, Err(AudioError::RateMismatch { stream_hz: 16_000, audio_hz: 22_050 }));
    assert!(take_log().is_empty());
}

#[test]
fn silence_is_written_as_zero_frames() {
    let _guard = serial();
    take_log();
    let mut sink: AudioSink<FakeDevice> = AudioSink::open(rate(8_000)).unwrap();
    take_log();
    let played = sink.play_silence(Duration::from_millis(100), &mut StopAfter(10)).unwrap();
    assert_eq!(played, Playback::Completed);
    assert_eq!(take_log(), vec!["write 1600"]);
    assert_eq!(sink.play_silence(Duration::ZERO, &mut StopAfter(0)), Ok(Playback::Completed));
    assert!(take_log().is_empty());
}

#[test]
fn server_failures_name_the_call() {
    let _guard = serial();
    take_log();
    fail_on(Some("connect"));
    let refused = PulseBackend::<FakeDevice>::open(rate(8_000));
    assert!(matches!(
        refused,
        Err(AudioError::DeviceUnavailable { ref detail }) if detail == "failed to connect to PulseAudio: connect refused"
    ));
    fail_on(Some("drain"));
    let mut sink: AudioSink<FakeDevice> = AudioSink::open(rate(8_000)).unwrap();
    assert_eq!(
        sink.drain(),
        Err(AudioError::WriteFailed { detail: "PulseAudio drain failed: drain refused".to_string() })
    );
    fail_on(Some("write"));
    let samples = [1i16, 2];
    assert_eq!(
        sink.play(PcmSamples::new(rate(8_000), &samples), &mut StopAfter(5)),
        Err(AudioError::WriteFailed { detail: "PulseAudio write failed: write refused".to_string() })
    );
    fail_on(Some("flush"));
    assert_eq!(
        sink.discard(),
        Err(AudioError::WriteFailed { detail: "PulseAudio flush failed: flush refused".to_string() })
    );
    fail_on(None);
    take_log();
}

#[test]
fn server_failures_carry_their_message() {
    assert_eq!(server_outcome("PulseAudio drain failed: ", Ok(())), Ok(()));
    assert_eq!(
        server_outcome("PulseAudio drain failed: ", Err("Broken pipe".to_string())),
        Err(AudioError::WriteFailed { detail: "PulseAudio drain failed: Broken pipe".to_string() })
    );
}

#[test]
fn each_step_of_a_write_ends_or_goes_on() {
    let submit = WriteAction::Submit { start: 0, end: 2048 };
    assert!(matches!(write_progress(submit, Ok(())), WriteProgress::Continue));
    assert!(matches!(
        write_progress(WriteAction::Discard, Ok(())),
        WriteProgress::Finished(Ok(Playback::Interrupted))
    ));
    let failure = AudioError::WriteFailed { detail: "PulseAudio write failed: x".to_string() };
    match write_progress(submit, Err(failure.clone())) {
        WriteProgress::Finished(Err(e)) => assert_eq!(e, failure),
        other => panic!("unexpected {other:?}"),
    }
}
