use vstd::prelude::*;
use crate::text::{decimal, i64_decimal, push_all, signed_decimal, str_chars, string_from_chars, u64_decimal};

verus! {

/// Why audio could not be opened or played.
#[derive(Clone, Debug, PartialEq, Eq)]
pub enum AudioError {
    InvalidSampleRate { hz: i32 },
    RateMismatch { stream_hz: u32, audio_hz: u32 },
    DeviceUnavailable { detail: String },
    UnsupportedFormat { requested_hz: u32, device_hz: u32 },
    WriteFailed { detail: String },
}

/// The sentence an error is reported with.
pub open spec fn audio_error_message(e: AudioError) -> Seq<char> {
    match e {
        AudioError::InvalidSampleRate { hz } =>
            "invalid sample rate: "@ + signed_decimal(hz as int) + " Hz"@,
        AudioError::RateMismatch { stream_hz, audio_hz } =>
            "mismatched sample rate for playback stream: expected "@ + decimal(stream_hz as nat)
                + " Hz, got "@ + decimal(audio_hz as nat) + " Hz"@,
        AudioError::DeviceUnavailable { detail } => "audio device unavailable: "@ + detail@,
        AudioError::UnsupportedFormat { requested_hz, device_hz } =>
            "device rejected 16-bit mono at "@ + decimal(requested_hz as nat) + " Hz; it renders at "@
                + decimal(device_hz as nat) + " Hz"@,
        AudioError::WriteFailed { detail } => "audio write failed: "@ + detail@,
    }
}

impl AudioError {
    /// The error as a sentence for the log or the UI.
    pub fn to_string(&self) -> (r: String)
        ensures
            r@ == audio_error_message(*self),
    {
        let mut out: Vec<char> = Vec::new();
        match self {
            AudioError::InvalidSampleRate { hz } => {
                push_all(&mut out, str_chars("invalid sample rate: ").as_slice());
                push_all(&mut out, i64_decimal(*hz as i64).as_slice());
                push_all(&mut out, str_chars(" Hz").as_slice());
            },
            AudioError::RateMismatch { stream_hz, audio_hz } => {
                push_all(
                    &mut out,
                    str_chars("mismatched sample rate for playback stream: expected ").as_slice(),
                );
                push_all(&mut out, u64_decimal(*stream_hz as u64).as_slice());
                push_all(&mut out, str_chars(" Hz, got ").as_slice());
                push_all(&mut out, u64_decimal(*audio_hz as u64).as_slice());
                push_all(&mut out, str_chars(" Hz").as_slice());
            },
            AudioError::DeviceUnavailable { detail } => {
                push_all(&mut out, str_chars("audio device unavailable: ").as_slice());
                push_all(&mut out, str_chars(detail.as_str()).as_slice());
            },
            AudioError::UnsupportedFormat { requested_hz, device_hz } => {
                push_all(&mut out, str_chars("device rejected 16-bit mono at ").as_slice());
                push_all(&mut out, u64_decimal(*requested_hz as u64).as_slice());
                push_all(&mut out, str_chars(" Hz; it renders at ").as_slice());
                push_all(&mut out, u64_decimal(*device_hz as u64).as_slice());
                push_all(&mut out, str_chars(" Hz").as_slice());
            },
            AudioError::WriteFailed { detail } => {
                push_all(&mut out, str_chars("audio write failed: ").as_slice());
                push_all(&mut out, str_chars(detail.as_str()).as_slice());
            },
        }
        string_from_chars(&out)
    }
}

} // verus!
