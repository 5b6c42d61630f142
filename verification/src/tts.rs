use vstd::prelude::*;
use crate::audio_error::{audio_error_message, AudioError};
use crate::events::ServiceError;
use crate::pcm::{duration_from_nanos, duration_nanos, frames_for, PcmSamples, SampleRate};
use crate::playback::{Playback, StopSignal};
use crate::pulse::{write_calls, zeros, AudioSink, DeviceCall, PcmDevice};
use crate::text::{has_prefix, 
    char_is_whitespace, i64_decimal, join_chars, join_with, push_all, signed_decimal, str_chars,
    string_from_chars, views, white_space,
};

verus! {

// ---------------------------------------------------------------------------
// Playback generations: each playback runs under a number, and a stop or a
// newer playback retires every number before it.
// ---------------------------------------------------------------------------

pub struct PlaybackGenerations {
    pub current: u64,
}

impl PlaybackGenerations {
    pub fn new() -> (r: Self)
        ensures
            r.current == 0,
    {
        PlaybackGenerations { current: 0 }
    }

    /// Starts a playback: its generation is the next number, which retires
    /// every earlier one.
    pub fn begin(&mut self) -> (r: u64)
        ensures
            r == final(self).current,
            final(self).current == (if old(self).current == u64::MAX {
                0
            } else {
                old(self).current + 1
            }),
    {
        self.current = self.current.wrapping_add(1);
        self.current
    }

    /// Whether a playback started under `generation` may still play.
    pub fn is_current(&self, generation: u64) -> (r: bool)
        ensures
            r == (generation == self.current),
    {
        generation == self.current
    }
}

/// Retires every playback that has started.
pub fn stop_playback(generations: &mut PlaybackGenerations)
    ensures
        final(generations).current == (if old(generations).current == u64::MAX {
            0
        } else {
            old(generations).current + 1
        }),
{
    generations.current = generations.current.wrapping_add(1);
}

/// A stop retires the playback that was running: it no longer counts as
/// current, whatever number it had.
pub proof fn lemma_stop_retires_running(before: u64, after: u64)
    requires
        after == (if before == u64::MAX {
            0
        } else {
            before + 1
        }),
    ensures
        after != before,
{
}

// ---------------------------------------------------------------------------
// The pause after a spoken chunk.
// ---------------------------------------------------------------------------

/// How long to pause after a chunk: nothing for no pause or a zero one, and
/// a negative pause is an error that names it.
pub open spec fn pause_plan(pause_after_ms: Option<i32>) -> Result<Option<u64>, Seq<char>> {
    match pause_after_ms {
        None => Ok(None),
        Some(ms) => if ms < 0 {
            Err("negative pause between speech chunks: "@ + signed_decimal(ms as int) + " ms"@)
        } else if ms == 0 {
            Ok(None)
        } else {
            Ok(Some(ms as u64))
        },
    }
}

pub fn pause_after_chunk(pause_after_ms: Option<i32>) -> (r: Result<Option<u64>, String>)
    ensures
        r matches Ok(p) ==> pause_plan(pause_after_ms) == Ok::<Option<u64>, Seq<char>>(p),
        r matches Err(m) ==> pause_plan(pause_after_ms) == Err::<Option<u64>, Seq<char>>(m@),
{
    match pause_after_ms {
        None => Ok(None),
        Some(ms) => {
            if ms < 0 {
                let mut out = str_chars("negative pause between speech chunks: ");
                push_all(&mut out, i64_decimal(ms as i64).as_slice());
                push_all(&mut out, str_chars(" ms").as_slice());
                Err(string_from_chars(&out))
            } else if ms == 0 {
                Ok(None)
            } else {
                Ok(Some(ms as u64))
            }
        },
    }
}

// ---------------------------------------------------------------------------
// A short, single-line preview of a chunk for the log.
// ---------------------------------------------------------------------------

/// The words found so far and the word being read, scanning `s` from the
/// start; words are maximal runs of non-whitespace.
pub open spec fn word_scan(s: Seq<char>) -> (Seq<Seq<char>>, Seq<char>)
    decreases s.len(),
{
    if s.len() == 0 {
        (seq![], seq![])
    } else {
        let (done, cur) = word_scan(s.drop_last());
        if white_space(s.last()) {
            if cur.len() > 0 {
                (done.push(cur), seq![])
            } else {
                (done, seq![])
            }
        } else {
            (done, cur.push(s.last()))
        }
    }
}

/// The words of `s`, as `str::split_whitespace` yields them.
pub open spec fn words(s: Seq<char>) -> Seq<Seq<char>> {
    let (done, cur) = word_scan(s);
    if cur.len() > 0 {
        done.push(cur)
    } else {
        done
    }
}

pub const PREVIEW_MAX_CHARS: usize = 64;

/// The text with its whitespace collapsed to single spaces, cut to 64
/// characters with `...` added when it was longer.
pub open spec fn preview_text(text: Seq<char>) -> Seq<char> {
    let normalized = join_with(words(text), ' ');
    if normalized.len() > 64 {
        normalized.take(64) + "..."@
    } else {
        normalized
    }
}

pub fn chunk_preview(text: &str) -> (r: String)
    ensures
        r@ == preview_text(text@),
{
    let chars = str_chars(text);
    let mut done: Vec<Vec<char>> = Vec::new();
    let mut cur: Vec<char> = Vec::new();
    let mut i: usize = 0;
    while i < chars.len()
        invariant
            i <= chars@.len(),
            chars@ == text@,
            (views(done@), cur@) == word_scan(chars@.subrange(0, i as int)),
        decreases chars.len() - i,
    {
        let c = chars[i];
        proof {
            let pre = chars@.subrange(0, i + 1);
            assert(pre.drop_last() =~= chars@.subrange(0, i as int));
            assert(pre.last() == c);
        }
        if char_is_whitespace(c) {
            if cur.len() > 0 {
                let word = cur;
                proof {
                    assert(views(done@.push(word)) =~= views(done@).push(word@));
                }
                done.push(word);
                cur = Vec::new();
            } else {
                cur = Vec::new();
            }
        } else {
            cur.push(c);
        }
        i = i + 1;
    }
    assert(chars@.subrange(0, chars@.len() as int) =~= chars@);
    if cur.len() > 0 {
        let word = cur;
        proof {
            assert(views(done@.push(word)) =~= views(done@).push(word@));
        }
        done.push(word);
    }
    let normalized = join_chars(&done, ' ');
    if normalized.len() > PREVIEW_MAX_CHARS {
        let mut out: Vec<char> = Vec::new();
        let mut k: usize = 0;
        while k < PREVIEW_MAX_CHARS
            invariant
                k <= PREVIEW_MAX_CHARS,
                normalized@.len() > 64,
                out@ == normalized@.take(k as int),
            decreases PREVIEW_MAX_CHARS - k,
        {
            out.push(normalized[k]);
            proof {
                assert(normalized@.take(k + 1) =~= normalized@.take(k as int).push(normalized@[k as int]));
            }
            k = k + 1;
        }
        push_all(&mut out, str_chars("...").as_slice());
        string_from_chars(&out)
    } else {
        string_from_chars(&normalized)
    }
}

// ---------------------------------------------------------------------------
// Streaming speech: chunks are planned, synthesized one after another and
// played as they arrive. Threads, channels and the speech service stay with
// the caller; what it decides at each point is here.
// ---------------------------------------------------------------------------

pub open spec fn no_voice_message(language_code: Seq<char>) -> Seq<char> {
    "No TTS voice installed for "@ + language_code
}

pub open spec fn nothing_to_speak_message() -> Seq<char> {
    "Nothing to speak"@
}

/// How a failed speech call is reported: a missing asset means no voice is
/// installed for the language; anything else as the service worded it.
pub open spec fn speech_failure_text(language_code: Seq<char>, error: ServiceError) -> Seq<char> {
    if error.missing_asset {
        no_voice_message(language_code)
    } else {
        error.message@
    }
}

pub fn speech_failure(language_code: &str, error: ServiceError) -> (r: String)
    ensures
        r@ == speech_failure_text(language_code@, error),
{
    if error.missing_asset {
        let mut out = str_chars("No TTS voice installed for ");
        push_all(&mut out, str_chars(language_code).as_slice());
        string_from_chars(&out)
    } else {
        error.message
    }
}

/// The chunks planned for a text: an empty plan is an error, and so is a
/// failed one.
pub fn planned_chunks<T>(language_code: &str, result: Result<Vec<T>, ServiceError>) -> (r: Result<
    Vec<T>,
    String,
>)
    ensures
        match result {
            Ok(chunks) => if chunks@.len() == 0 {
                r matches Err(m) && m@ == nothing_to_speak_message()
            } else {
                r == Ok::<Vec<T>, String>(chunks)
            },
            Err(error) => r matches Err(m) && m@ == speech_failure_text(language_code@, error),
        },
{
    match result {
        Ok(chunks) => {
            if chunks.len() == 0 {
                Err(string_from_chars(&str_chars("Nothing to speak")))
            } else {
                Ok(chunks)
            }
        },
        Err(error) => Err(speech_failure(language_code, error)),
    }
}

/// How a panic in the speech runtime is reported, given the panic's message
/// when it carried one.
pub open spec fn panic_text(message: Option<Seq<char>>) -> Seq<char> {
    match message {
        Some(m) => "TTS runtime panicked: "@ + m,
        None => "TTS runtime panicked"@,
    }
}

pub fn panic_report(message: Option<String>) -> (r: String)
    ensures
        r@ == panic_text(crate::document::text_of(message)),
{
    match message {
        Some(m) => {
            let mut out = str_chars("TTS runtime panicked: ");
            push_all(&mut out, str_chars(m.as_str()).as_slice());
            string_from_chars(&out)
        },
        None => string_from_chars(&str_chars("TTS runtime panicked")),
    }
}

/// Opens a playback stream at the rate of the first synthesized chunk; a
/// rate that is not positive, or a stream that cannot open, is reported as
/// its sentence.
pub fn open_stream<D: PcmDevice>(sample_rate: i32) -> (r: Result<(SampleRate, AudioSink<D>), String>)
    ensures
        sample_rate <= 0 ==> (r matches Err(m) && m@ == audio_error_message(
            AudioError::InvalidSampleRate { hz: sample_rate },
        )),
        r matches Ok((rate, sink)) ==> rate@ == sample_rate && sink.spec_rate() == rate,
        sample_rate > 0 ==> (r matches Err(m) ==> has_prefix(m@, "audio device unavailable: "@)),
{
    let rate = match SampleRate::try_from(sample_rate) {
        Ok(rate) => rate,
        Err(e) => {
            return Err(e.to_string());
        },
    };
    match AudioSink::<D>::open(rate) {
        Ok(sink) => Ok((rate, sink)),
        Err(e) => {
            let m = e.to_string();
            proof {
                if let AudioError::DeviceUnavailable { detail } = e {
                    crate::text::lemma_prefix_of_concat("audio device unavailable: "@, detail@);
                }
            }
            Err(m)
        },
    }
}

/// The silence after a chunk fits in memory at rate `hz`.
pub open spec fn pause_fits(hz: nat, pause_after_ms: Option<i32>) -> bool {
    match pause_after_ms {
        Some(ms) => ms > 0 ==> frames_for(hz, (ms * 1_000_000) as nat) <= usize::MAX,
        None => true,
    }
}

/// Nanoseconds in a millisecond.
pub const NANOS_PER_MILLI: u64 = 1_000_000;

/// The silent frames played after a chunk at rate `hz`, when a pause
/// follows it.
pub open spec fn pause_frames(hz: nat, pause_after_ms: Option<i32>) -> Option<nat> {
    match pause_plan(pause_after_ms) {
        Ok(Some(ms)) => Some(frames_for(hz, (ms * 1_000_000) as nat)),
        _ => None,
    }
}

/// The calls on the server that playing a chunk made: first those of
/// writing the chunk's samples; then, only when that write did not fail
/// and a pause follows, those of writing the pause's silence.
pub open spec fn chunk_play_calls(
    samples: Seq<i16>,
    pause: Option<nat>,
    added: Seq<DeviceCall>,
) -> bool {
    exists|k: int, first: Result<Playback, AudioError>|
        #![trigger write_calls(samples, added.take(k), first)]
        0 <= k <= added.len() && write_calls(samples, added.take(k), first) && (k == added.len() || (
        first is Ok && (pause matches Some(m) && exists|second: Result<Playback, AudioError>|
            #[trigger] write_calls(zeros(m), added.skip(k), second))))
}

/// Plays one synthesized chunk, then the pause that follows it. A chunk at
/// another rate than the stream is refused; a negative pause is an error
/// once the chunk has played.
pub fn play_chunk<D: PcmDevice, S: StopSignal>(
    playback: &mut AudioSink<D>,
    rate: SampleRate,
    samples: &[i16],
    pause_after_ms: Option<i32>,
    stop: &mut S,
) -> (r: Result<(), String>)
    requires
        pause_fits(old(playback).spec_rate()@ as nat, pause_after_ms),
    ensures
        final(playback).spec_rate() == old(playback).spec_rate(),
        final(playback).device_calls().subrange(0, old(playback).device_calls().len() as int)
            == old(playback).device_calls(),
        final(playback).device_calls().len() >= old(playback).device_calls().len(),
        rate@ != old(playback).spec_rate()@ ==> (r matches Err(m) && m@ == audio_error_message(
            AudioError::RateMismatch { stream_hz: old(playback).spec_rate()@, audio_hz: rate@ },
        )) && final(playback).device_calls() == old(playback).device_calls(),
        rate@ == old(playback).spec_rate()@ ==> chunk_play_calls(
            samples@,
            pause_frames(rate@ as nat, pause_after_ms),
            final(playback).device_calls().skip(old(playback).device_calls().len() as int),
        ),
        r is Ok ==> pause_plan(pause_after_ms) is Ok,
        rate@ == old(playback).spec_rate()@ && samples@.len() == 0 ==> match pause_plan(pause_after_ms) {
            Err(m) => r matches Err(e) && e@ == m,
            Ok(None) => r is Ok,
            Ok(Some(_)) => true,
        },
        r matches Err(m) ==> ((rate@ != old(playback).spec_rate()@) || has_prefix(
            m@,
            "audio write failed: "@,
        ) || pause_plan(pause_after_ms) == Err::<Option<u64>, Seq<char>>(m@)),
{
    let ghost start = playback.device_calls();
    let ghost start_len = start.len() as int;
    let audio = PcmSamples::new(rate, samples);
    let played = playback.play(audio, stop);
    let ghost after_chunk = playback.device_calls();
    let ghost k = after_chunk.len() - start_len;
    proof {
        let added = after_chunk.skip(start_len);
        assert(added.take(k) =~= added);
        if rate@ == playback.spec_rate()@ {
            assert(write_calls(samples@, added.take(k), played));
            assert(chunk_play_calls(samples@, pause_frames(rate@ as nat, pause_after_ms), added));
        }
    }
    match played {
        Ok(_) => {},
        Err(e) => {
            let m = e.to_string();
            proof {
                if let AudioError::WriteFailed { detail } = e {
                    crate::text::lemma_prefix_of_concat("audio write failed: "@, detail@);
                }
            }
            return Err(m);
        },
    }
    let pause = match pause_after_chunk(pause_after_ms) {
        Ok(p) => p,
        Err(m) => {
            return Err(m);
        },
    };
    match pause {
        None => Ok(()),
        Some(ms) => {
            let nanos = ms * NANOS_PER_MILLI;
            let silent = playback.play_silence(duration_from_nanos(nanos), stop);
            proof {
                let all = playback.device_calls();
                let added = all.skip(start_len);
                assert(all.subrange(0, after_chunk.len() as int) == after_chunk);
                assert(added.take(k) =~= after_chunk.skip(start_len));
                assert(added.skip(k) =~= all.skip(after_chunk.len() as int));
                assert(write_calls(samples@, added.take(k), played));
                assert(write_calls(
                    zeros(frames_for(rate@ as nat, nanos as nat)),
                    added.skip(k),
                    silent,
                ));
                assert(all.subrange(0, start_len) =~= start);
                let m = frames_for(rate@ as nat, nanos as nat);
                let pf = pause_frames(rate@ as nat, pause_after_ms);
                assert(pf == Some(m));
                assert(write_calls(zeros(pf->0), added.skip(k), silent));
                assert(chunk_play_calls(samples@, pause_frames(rate@ as nat, pause_after_ms), added));
            }
            match silent {
                Ok(_) => Ok(()),
                Err(e) => {
                    let m = e.to_string();
                    proof {
                        if let AudioError::WriteFailed { detail } = e {
                            crate::text::lemma_prefix_of_concat("audio write failed: "@, detail@);
                        }
                    }
                    Err(m)
                },
            }
        },
    }
}

/// How a speech stream ends.
#[derive(Clone, Copy, Debug, PartialEq, Eq, Structural)]
pub enum StreamEnd {
    /// Let what is queued play out.
    Drain,
    /// Drop what is queued.
    Discard,
}

/// A stopped stream drops what is queued; a finished one plays it out.
pub fn stream_end(stopped: bool) -> (r: StreamEnd)
    ensures
        r == (if stopped {
            StreamEnd::Discard
        } else {
            StreamEnd::Drain
        }),
{
    if stopped {
        StreamEnd::Discard
    } else {
        StreamEnd::Drain
    }
}

/// Ends a stream as `stream_end` decides: what is queued plays out, unless
/// playback was stopped, in which case the server's queue is flushed. The
/// server's answer is handed back; the speech loop does not report it.
pub fn finish_stream<D: PcmDevice>(playback: &mut AudioSink<D>, stopped: bool) -> (r: Result<(), AudioError>)
    ensures
        final(playback).spec_rate() == old(playback).spec_rate(),
        stopped ==> final(playback).device_calls() == old(playback).device_calls().push(
            DeviceCall::Flush,
        ),
        !stopped ==> final(playback).device_calls() == old(playback).device_calls().push(
            DeviceCall::Drain,
        ),
        stopped ==> (r matches Err(e) ==> (e matches AudioError::WriteFailed { detail } && has_prefix(
            detail@,
            "PulseAudio flush failed: "@,
        ))),
        !stopped ==> (r matches Err(e) ==> (e matches AudioError::WriteFailed { detail } && has_prefix(
            detail@,
            "PulseAudio drain failed: "@,
        ))),
{
    match stream_end(stopped) {
        StreamEnd::Discard => playback.discard(),
        StreamEnd::Drain => playback.drain(),
    }
}

} // verus!
