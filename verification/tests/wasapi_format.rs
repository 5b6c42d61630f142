use offline_translator::audio_error::AudioError;
use offline_translator::pcm::SampleRate;
use offline_translator::wasapi_format::{
    describe, initialize_error, FormatNegotiation, HrCode, WaveFormatFields,
    AUDCLNT_E_UNSUPPORTED_FORMAT, AUDCLNT_STREAMFLAGS_AUTOCONVERTPCM,
    AUDCLNT_STREAMFLAGS_SRC_DEFAULT_QUALITY, S_OK, WAVE_FORMAT_PCM,
};

const S_FALSE: i32 = 1;

#[test]
fn only_an_exact_match_skips_the_os_resampler() {
    assert_eq!(
        FormatNegotiation::from_is_format_supported(HrCode(S_OK)),
        FormatNegotiation::Native
    );
    assert_eq!(FormatNegotiation::Native.stream_flags(), 0);

    for hr in [S_FALSE, AUDCLNT_E_UNSUPPORTED_FORMAT] {
        assert_eq!(
            FormatNegotiation::from_is_format_supported(HrCode(hr)),
            FormatNegotiation::OsResampled
        );
    }
    assert_eq!(
        FormatNegotiation::OsResampled.stream_flags(),
        AUDCLNT_STREAMFLAGS_AUTOCONVERTPCM | AUDCLNT_STREAMFLAGS_SRC_DEFAULT_QUALITY
    );
}

#[test]
fn mono_s16_format_describes_two_byte_frames() {
    let format = WaveFormatFields::mono_s16(SampleRate::try_from(22_050).unwrap());
    assert_eq!(
        format,
        WaveFormatFields {
            format_tag: WAVE_FORMAT_PCM,
            channels: 1,
            samples_per_sec: 22_050,
            avg_bytes_per_sec: 44_100,
            block_align: 2,
            bits_per_sample: 16,
            cb_size: 0,
        }
    );
}

#[test]
fn a_rejected_format_reports_both_rates() {
    let requested = SampleRate::try_from(22_050).unwrap();
    assert_eq!(
        initialize_error(
            HrCode(AUDCLNT_E_UNSUPPORTED_FORMAT),
            "Unsupported format",
            requested,
            48_000
        ),
        AudioError::UnsupportedFormat {
            requested_hz: 22_050,
            device_hz: 48_000,
        }
    );
}

#[test]
fn other_initialize_failures_keep_the_hresult() {
    let requested = SampleRate::try_from(22_050).unwrap();
    assert_eq!(
        initialize_error(
            HrCode(0x8889_0001u32 as i32),
            "Not initialized",
            requested,
            0
        ),
        AudioError::DeviceUnavailable {
            detail: "IAudioClient::Initialize failed: Not initialized (0x88890001)".to_string(),
        }
    );
}

#[test]
fn descriptions_name_the_failing_call() {
    assert_eq!(
        describe(
            "IAudioRenderClient::GetBuffer",
            HrCode(0x8889_0006u32 as i32),
            "Buffer too large"
        ),
        "IAudioRenderClient::GetBuffer failed: Buffer too large (0x88890006)"
    );
}

#[test]
fn result_codes_print_as_eight_hex_digits() {
    assert_eq!(HrCode(0).to_string(), "0x00000000");
    assert_eq!(HrCode(0x1f).to_string(), "0x0000001F");
    assert_eq!(HrCode(-1).to_string(), "0xFFFFFFFF");
    assert_eq!(HrCode(AUDCLNT_E_UNSUPPORTED_FORMAT).to_string(), "0x88890008");
}
