use vstd::prelude::*;
use crate::audio_error::AudioError;
use crate::pcm::{SampleRate, BITS_PER_SAMPLE, CHANNELS};
use crate::text::{hex_digits, hex_fixed, push_all, str_chars, string_from_chars};

verus! {

pub const WAVE_FORMAT_PCM: u16 = 1;
pub const S_OK: i32 = 0;
/// `AUDCLNT_E_UNSUPPORTED_FORMAT`, the HRESULT `0x88890008`.
pub const AUDCLNT_E_UNSUPPORTED_FORMAT: i32 = -2004287480;
pub const AUDCLNT_STREAMFLAGS_AUTOCONVERTPCM: u32 = 0x8000_0000;
pub const AUDCLNT_STREAMFLAGS_SRC_DEFAULT_QUALITY: u32 = 0x0800_0000;

/// A COM result code.
#[derive(Clone, Copy, Debug, PartialEq, Eq, Structural)]
pub struct HrCode(pub i32);

/// The bits of a result code read as an unsigned number.
pub open spec fn hr_bits(code: i32) -> nat {
    if code < 0 {
        (code + 0x1_0000_0000) as nat
    } else {
        code as nat
    }
}

/// How a result code is written: `0x` and eight upper-case hex digits.
pub open spec fn hr_text(hr: HrCode) -> Seq<char> {
    "0x"@ + hex_fixed(hr_bits(hr.0), 8)
}

impl HrCode {
    pub fn to_string(&self) -> (r: String)
        ensures
            r@ == hr_text(*self),
    {
        let mut out = str_chars("0x");
        let bits: u32 = if self.0 < 0 {
            (self.0 as i64 + 0x1_0000_0000i64) as u32
        } else {
            self.0 as u32
        };
        push_all(&mut out, hex_digits(bits, 8).as_slice());
        string_from_chars(&out)
    }
}

/// Shared-mode WASAPI mixes only the endpoint's own format; anything else goes
/// through the system resampler, which is asked for by flag.
#[derive(Clone, Copy, Debug, PartialEq, Eq, Structural)]
pub enum FormatNegotiation {
    Native,
    OsResampled,
}

impl FormatNegotiation {
    pub fn from_is_format_supported(hr: HrCode) -> (r: Self)
        ensures
            r == (if hr.0 == S_OK {
                FormatNegotiation::Native
            } else {
                FormatNegotiation::OsResampled
            }),
    {
        if hr == HrCode(S_OK) {
            return FormatNegotiation::Native;
        }
        FormatNegotiation::OsResampled
    }

    pub fn stream_flags(self) -> (r: u32)
        ensures
            self == FormatNegotiation::Native ==> r == 0,
            self == FormatNegotiation::OsResampled ==> r == (AUDCLNT_STREAMFLAGS_AUTOCONVERTPCM
                | AUDCLNT_STREAMFLAGS_SRC_DEFAULT_QUALITY),
    {
        match self {
            FormatNegotiation::Native => 0,
            FormatNegotiation::OsResampled => {
                AUDCLNT_STREAMFLAGS_AUTOCONVERTPCM | AUDCLNT_STREAMFLAGS_SRC_DEFAULT_QUALITY
            },
        }
    }
}

/// The fields of a `WAVEFORMATEX`.
#[derive(Clone, Copy, Debug, PartialEq, Eq, Structural)]
pub struct WaveFormatFields {
    pub format_tag: u16,
    pub channels: u16,
    pub samples_per_sec: u32,
    pub avg_bytes_per_sec: u32,
    pub block_align: u16,
    pub bits_per_sample: u16,
    pub cb_size: u16,
}

impl WaveFormatFields {
    /// 16-bit mono PCM at `rate`.
    pub fn mono_s16(rate: SampleRate) -> (r: Self)
        requires
            rate@ * 2 <= u32::MAX,
        ensures
            r == (WaveFormatFields {
                format_tag: WAVE_FORMAT_PCM,
                channels: CHANNELS,
                samples_per_sec: rate@,
                avg_bytes_per_sec: (rate@ * 2) as u32,
                block_align: 2,
                bits_per_sample: BITS_PER_SAMPLE,
                cb_size: 0,
            }),
    {
        let block_align: u16 = 2;
        WaveFormatFields {
            format_tag: WAVE_FORMAT_PCM,
            channels: CHANNELS,
            samples_per_sec: rate.hz(),
            avg_bytes_per_sec: rate.hz() * (block_align as u32),
            block_align,
            bits_per_sample: BITS_PER_SAMPLE,
            cb_size: 0,
        }
    }
}

/// `"<operation> failed: <message> (<code>)"`.
pub open spec fn description(operation: Seq<char>, hr: HrCode, message: Seq<char>) -> Seq<char> {
    operation + " failed: "@ + message + " ("@ + hr_text(hr) + ")"@
}

pub fn describe(operation: &str, hr: HrCode, message: &str) -> (r: String)
    ensures
        r@ == description(operation@, hr, message@),
{
    let mut out = str_chars(operation);
    push_all(&mut out, str_chars(" failed: ").as_slice());
    push_all(&mut out, str_chars(message).as_slice());
    push_all(&mut out, str_chars(" (").as_slice());
    let code = hr.to_string();
    push_all(&mut out, str_chars(code.as_str()).as_slice());
    push_all(&mut out, str_chars(")").as_slice());
    string_from_chars(&out)
}

/// The error for a failed `IAudioClient::Initialize`: a refused format names
/// both rates, anything else keeps the result code.
pub fn initialize_error(hr: HrCode, message: &str, requested: SampleRate, device_hz: u32) -> (r:
    AudioError)
    ensures
        hr.0 == AUDCLNT_E_UNSUPPORTED_FORMAT ==> r == (AudioError::UnsupportedFormat {
            requested_hz: requested@,
            device_hz,
        }),
        hr.0 != AUDCLNT_E_UNSUPPORTED_FORMAT ==> (r matches AudioError::DeviceUnavailable { detail }
            && detail@ == description("IAudioClient::Initialize"@, hr, message@)),
{
    if hr == HrCode(AUDCLNT_E_UNSUPPORTED_FORMAT) {
        return AudioError::UnsupportedFormat { requested_hz: requested.hz(), device_hz };
    }
    AudioError::DeviceUnavailable { detail: describe("IAudioClient::Initialize", hr, message) }
}

} // verus!
