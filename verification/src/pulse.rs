use std::time::Duration;
use vstd::prelude::*;
use crate::audio_error::AudioError;
use crate::pcm::{duration_from_nanos, duration_nanos, frames_for, PcmSamples, SampleRate};
use crate::playback::{
    chunk_end, pcm_bytes, bytes_for, check_stream_rate, samples_to_le_bytes, silence_for, ChunkedWrite, Playback,
    StopSignal, WriteAction, WriteProgress, write_progress,
};
use crate::text::{has_prefix, push_all, str_chars, string_from_chars};

verus! {

/// The sound server's simple playback connection, as the platform exposes
/// it. Each call reports a failure with the server's own message.
pub trait PcmDevice: Sized {
    /// Opens a 16-bit mono playback stream that keeps `target_bytes` queued
    /// and starts once `prebuffer_bytes` are.
    fn connect(rate: SampleRate, target_bytes: u32, prebuffer_bytes: u32) -> Result<Self, String>;

    /// Queues little-endian sample bytes, blocking while the queue is full.
    fn write_bytes(&self, bytes: &[u8]) -> Result<(), String>;

    /// Waits until everything queued has played.
    fn drain(&self) -> Result<(), String>;

    /// Drops everything queued.
    fn flush(&self) -> Result<(), String>;
}

/// Audio the server keeps queued; writes block beyond it, which paces the
/// writer without a clock of its own.
pub const TARGET_BUFFER_NANOS: u64 = 400_000_000;

/// Audio queued before playback starts, so the first word is not held back.
pub const PREBUFFER_NANOS: u64 = 40_000_000;

/// `prefix` followed by the server's message.
fn with_prefix(prefix: &str, message: &String) -> (r: String)
    ensures
        r@ == prefix@ + message@,
        has_prefix(r@, prefix@),
{
    let mut out = str_chars(prefix);
    push_all(&mut out, str_chars(message.as_str()).as_slice());
    assert(out@.subrange(0, prefix@.len() as int) =~= prefix@);
    string_from_chars(&out)
}

/// What a call on the server comes to: success stays success, and a failure
/// becomes a write error whose detail is `prefix` and the server's message.
pub fn server_outcome(prefix: &str, outcome: Result<(), String>) -> (r: Result<(), AudioError>)
    ensures
        outcome is Ok ==> r == Ok::<(), AudioError>(()),
        outcome matches Err(message) ==> (r matches Err(AudioError::WriteFailed { detail })
            && detail@ == prefix@ + message@ && has_prefix(detail@, prefix@)),
{
    match outcome {
        Ok(()) => Ok(()),
        Err(message) => {
            let detail = with_prefix(prefix, &message);
            Err(AudioError::WriteFailed { detail })
        },
    }
}

/// A call the library made on the sound server.
pub enum DeviceCall {
    /// These bytes were queued.
    Write(Seq<u8>),
    /// Waiting until the queue had played.
    Drain,
    /// Dropping the queue.
    Flush,
}

/// The number of chunks a write of `n` samples is handed over in.
pub open spec fn chunk_count(n: nat) -> nat {
    ((n + 2047) / 2048) as nat
}

/// The samples of chunk `i` of a write.
pub open spec fn chunk_samples(samples: Seq<i16>, i: nat) -> Seq<i16> {
    samples.subrange(2048 * i as int, chunk_end(samples.len(), 2048 * i) as int)
}

/// The first `k` chunks of a write, queued in order.
pub open spec fn chunk_calls(samples: Seq<i16>, k: nat) -> Seq<DeviceCall> {
    Seq::new(k, |i: int| DeviceCall::Write(pcm_bytes(chunk_samples(samples, i as nat))))
}

/// The calls a write of `samples` makes, given how it ended: a completed
/// write queues every chunk; an interrupted one queues the chunks before
/// the stop and then drops the queue; a failed one ends with the call that
/// failed.
pub open spec fn write_calls(samples: Seq<i16>, added: Seq<DeviceCall>, r: Result<Playback, AudioError>) -> bool {
    let c = chunk_count(samples.len());
    match r {
        Ok(Playback::Completed) => added == chunk_calls(samples, c),
        Ok(Playback::Interrupted) => exists|k: nat|
            #![trigger chunk_calls(samples, k)]
            k < c && added == chunk_calls(samples, k).push(DeviceCall::Flush),
        Err(_) => exists|k: nat|
            #![trigger chunk_calls(samples, k)]
            k < c && (added == chunk_calls(samples, k).push(DeviceCall::Flush) || added
                == chunk_calls(samples, k + 1)),
    }
}

/// `m` silent samples.
pub open spec fn zeros(m: nat) -> Seq<i16> {
    Seq::new(m, |i: int| 0i16)
}

proof fn lemma_chunk_count(n: nat, k: nat)
    ensures
        (2048 * k < n) == (k < chunk_count(n)),
{
    let q = chunk_count(n);
    assert((2048 * k < n) == (k < q)) by (nonlinear_arith)
        requires
            q == (n + 2047) / 2048,
            n >= 0,
            k >= 0,
    ;
}

/// The bytes a run of calls queued, in order.
pub open spec fn queued_bytes(calls: Seq<DeviceCall>) -> Seq<u8>
    decreases calls.len(),
{
    if calls.len() == 0 {
        seq![]
    } else {
        queued_bytes(calls.drop_last()) + match calls.last() {
            DeviceCall::Write(bytes) => bytes,
            _ => seq![],
        }
    }
}

proof fn lemma_pcm_bytes_append(a: Seq<i16>, b: Seq<i16>)
    ensures
        pcm_bytes(a + b) == pcm_bytes(a) + pcm_bytes(b),
    decreases b.len(),
{
    if b.len() == 0 {
        assert(a + b =~= a);
        assert(pcm_bytes(a) + pcm_bytes(b) =~= pcm_bytes(a));
    } else {
        lemma_pcm_bytes_append(a, b.drop_last());
        assert((a + b).drop_last() =~= a + b.drop_last());
        assert((a + b).last() == b.last());
        assert(pcm_bytes(a + b) =~= pcm_bytes(a) + pcm_bytes(b));
    }
}

/// The first `k` chunks queue the bytes of the samples they cover, in order.
pub proof fn lemma_chunks_queue_prefix(samples: Seq<i16>, k: nat)
    requires
        k <= chunk_count(samples.len()),
    ensures
        queued_bytes(chunk_calls(samples, k)) == pcm_bytes(
            samples.take(if 2048 * k < samples.len() { (2048 * k) as int } else { samples.len() as int }),
        ),
    decreases k,
{
    let n = samples.len();
    if k == 0 {
        assert(chunk_calls(samples, 0) =~= Seq::<DeviceCall>::empty());
        assert(samples.take(0) =~= Seq::<i16>::empty());
    } else {
        let j = (k - 1) as nat;
        lemma_chunks_queue_prefix(samples, j);
        lemma_chunk_count(n, j);
        assert(chunk_calls(samples, k).drop_last() =~= chunk_calls(samples, j));
        let before = samples.take(2048 * j as int);
        let end = chunk_end(n, 2048 * j);
        assert(samples.take(end as int) =~= before + chunk_samples(samples, j));
        lemma_pcm_bytes_append(before, chunk_samples(samples, j));
    }
}

/// A write that completes queues the bytes of every sample, each once, in
/// order.
pub proof fn lemma_completed_write_queues_every_sample(samples: Seq<i16>)
    ensures
        queued_bytes(chunk_calls(samples, chunk_count(samples.len()))) == pcm_bytes(samples),
{
    let c = chunk_count(samples.len());
    lemma_chunk_count(samples.len(), c);
    lemma_chunks_queue_prefix(samples, c);
    assert(samples.take(samples.len() as int) =~= samples);
}

/// A playback stream on the sound server, at one fixed rate. `calls`
/// records, in order, every call the library made on the server.
pub struct PulseBackend<D> {
    device: D,
    rate: SampleRate,
    calls: Ghost<Seq<DeviceCall>>,
}

/// The byte count of `nanos` nanoseconds of audio at `hz`.
pub open spec fn buffer_bytes(hz: nat, nanos: nat) -> nat {
    frames_for(hz, nanos) * 2
}

proof fn lemma_buffer_fits(hz: nat, nanos: nat)
    requires
        hz <= u32::MAX,
        nanos <= 400_000_000,
    ensures
        buffer_bytes(hz, nanos) <= u32::MAX,
{
    assert(nanos * hz / 1_000_000_000 <= hz * 2 / 5) by (nonlinear_arith)
        requires
            nanos <= 400_000_000,
            hz >= 0,
    ;
}

impl<D: PcmDevice> PulseBackend<D> {
    pub closed spec fn spec_rate(&self) -> SampleRate {
        self.rate
    }

    /// The calls made on the server so far, oldest first.
    pub closed spec fn device_calls(&self) -> Seq<DeviceCall> {
        self.calls@
    }

    pub fn open(rate: SampleRate) -> (r: Result<Self, AudioError>)
        ensures
            r matches Ok(backend) ==> backend.spec_rate() == rate && backend.device_calls()
                == Seq::<DeviceCall>::empty(),
            r matches Err(e) ==> (e matches AudioError::DeviceUnavailable { detail } && has_prefix(
                detail@,
                "failed to connect to PulseAudio: "@,
            )),
    {
        proof {
            lemma_buffer_fits(rate@ as nat, 400_000_000);
            lemma_buffer_fits(rate@ as nat, 40_000_000);
        }
        let target = bytes_for(rate, duration_from_nanos(TARGET_BUFFER_NANOS));
        let prebuffer = bytes_for(rate, duration_from_nanos(PREBUFFER_NANOS));
        match D::connect(rate, target, prebuffer) {
            Ok(device) => Ok(PulseBackend { device, rate, calls: Ghost(Seq::empty()) }),
            Err(message) => {
                let detail = with_prefix("failed to connect to PulseAudio: ", &message);
                Err(AudioError::DeviceUnavailable { detail })
            },
        }
    }

    pub fn sample_rate(&self) -> (r: SampleRate)
        ensures
            r == self.spec_rate(),
    {
        self.rate
    }

    /// Queues the samples chunk by chunk, asking `stop` before each chunk;
    /// a stop drops what is queued.
    pub fn write<S: StopSignal>(&mut self, samples: &[i16], stop: &mut S) -> (r: Result<
        Playback,
        AudioError,
    >)
        ensures
            final(self).spec_rate() == old(self).spec_rate(),
            final(self).device_calls().subrange(0, old(self).device_calls().len() as int)
                == old(self).device_calls(),
            final(self).device_calls().len() >= old(self).device_calls().len(),
            write_calls(
                samples@,
                final(self).device_calls().skip(old(self).device_calls().len() as int),
                r,
            ),
            r == Ok::<Playback, AudioError>(Playback::Completed) ==> queued_bytes(
                final(self).device_calls().skip(old(self).device_calls().len() as int),
            ) == pcm_bytes(samples@),
            samples@.len() == 0 ==> r == Ok::<Playback, AudioError>(Playback::Completed),
            samples@.len() == 0 ==> *final(stop) == *old(stop),
            r matches Err(e) ==> (e matches AudioError::WriteFailed { detail } && (has_prefix(
                detail@,
                "PulseAudio write failed: "@,
            ) || has_prefix(detail@, "PulseAudio flush failed: "@))),
    {
        let ghost base = self.device_calls();
        let ghost n = samples@.len();
        let ghost mut k: nat = 0;
        let mut chunks = ChunkedWrite::new(samples.len());
        proof {
            lemma_chunk_count(n, 0);
            assert(chunk_calls(samples@, 0) =~= Seq::<DeviceCall>::empty());
            assert(base + chunk_calls(samples@, 0) =~= base);
        }
        loop
            invariant
                chunks.wf(),
                chunks.total == n,
                n == samples@.len(),
                k <= chunk_count(n),
                chunks.submitted == (if 2048 * k < n {
                    2048 * k
                } else {
                    n
                }),
                (2048 * k < n) == (k < chunk_count(n)),
                self.device_calls() == base + chunk_calls(samples@, k),
                self.spec_rate() == old(self).spec_rate(),
                base == old(self).device_calls(),
                n == 0 ==> *stop == *old(stop),
            decreases chunks.total - chunks.submitted,
        {
            match chunks.pending() {
                None => {
                    proof {
                        assert((base + chunk_calls(samples@, k)).skip(base.len() as int)
                            =~= chunk_calls(samples@, k));
                        assert((base + chunk_calls(samples@, k)).subrange(0, base.len() as int)
                            =~= base);
                        lemma_chunk_count(n, k);
                        lemma_completed_write_queues_every_sample(samples@);
                    }
                    return Ok(Playback::Completed);
                },
                Some(_) => {},
            }
            let stop_requested = stop.should_stop();
            let action = chunks.on_chunk(stop_requested);
            let ghost before = self.device_calls();
            let outcome = match action {
                WriteAction::Discard => self.discard(),
                WriteAction::Submit { start, end } => {
                    let chunk = vstd::slice::slice_subrange(samples, start, end);
                    proof {
                        assert(chunk@ =~= chunk_samples(samples@, k));
                    }
                    self.write_chunk(chunk)
                },
            };
            proof {
                let calls = self.device_calls();
                assert(calls.subrange(0, base.len() as int) =~= base);
                if action is Submit {
                    assert(chunk_calls(samples@, k).push(
                        DeviceCall::Write(pcm_bytes(chunk_samples(samples@, k))),
                    ) =~= chunk_calls(samples@, k + 1));
                    assert(calls =~= base + chunk_calls(samples@, k + 1));
                    assert(calls.skip(base.len() as int) =~= chunk_calls(samples@, k + 1));
                    lemma_chunk_count(n, k + 1);
                } else {
                    assert(calls =~= base + chunk_calls(samples@, k).push(DeviceCall::Flush));
                    assert(calls.skip(base.len() as int) =~= chunk_calls(samples@, k).push(
                        DeviceCall::Flush,
                    ));
                }
            }
            match write_progress(action, outcome) {
                WriteProgress::Continue => {
                    proof {
                        k = k + 1;
                    }
                },
                WriteProgress::Finished(result) => {
                    return result;
                },
            }
        }
    }

    fn write_chunk(&mut self, samples: &[i16]) -> (r: Result<(), AudioError>)
        ensures
            final(self).spec_rate() == old(self).spec_rate(),
            final(self).device_calls() == old(self).device_calls().push(
                DeviceCall::Write(pcm_bytes(samples@)),
            ),
            r matches Err(e) ==> (e matches AudioError::WriteFailed { detail } && has_prefix(
                detail@,
                "PulseAudio write failed: "@,
            )),
    {
        let bytes = samples_to_le_bytes(samples);
        let outcome = self.device.write_bytes(bytes.as_slice());
        self.calls = Ghost(self.calls@.push(DeviceCall::Write(bytes@)));
        server_outcome("PulseAudio write failed: ", outcome)
    }

    pub fn drain(&mut self) -> (r: Result<(), AudioError>)
        ensures
            final(self).spec_rate() == old(self).spec_rate(),
            final(self).device_calls() == old(self).device_calls().push(DeviceCall::Drain),
            r matches Err(e) ==> (e matches AudioError::WriteFailed { detail } && has_prefix(
                detail@,
                "PulseAudio drain failed: "@,
            )),
    {
        let outcome = self.device.drain();
        self.calls = Ghost(self.calls@.push(DeviceCall::Drain));
        server_outcome("PulseAudio drain failed: ", outcome)
    }

    pub fn discard(&mut self) -> (r: Result<(), AudioError>)
        ensures
            final(self).spec_rate() == old(self).spec_rate(),
            final(self).device_calls() == old(self).device_calls().push(DeviceCall::Flush),
            r matches Err(e) ==> (e matches AudioError::WriteFailed { detail } && has_prefix(
                detail@,
                "PulseAudio flush failed: "@,
            )),
    {
        let outcome = self.device.flush();
        self.calls = Ghost(self.calls@.push(DeviceCall::Flush));
        server_outcome("PulseAudio flush failed: ", outcome)
    }
}

/// A playback stream for speech: audio at the stream's rate, and silence.
pub struct AudioSink<D> {
    backend: PulseBackend<D>,
}

impl<D: PcmDevice> AudioSink<D> {
    pub closed spec fn spec_rate(&self) -> SampleRate {
        self.backend.spec_rate()
    }

    /// The calls made on the server so far, oldest first.
    pub closed spec fn device_calls(&self) -> Seq<DeviceCall> {
        self.backend.device_calls()
    }

    pub fn open(rate: SampleRate) -> (r: Result<Self, AudioError>)
        ensures
            r matches Ok(sink) ==> sink.spec_rate() == rate && sink.device_calls()
                == Seq::<DeviceCall>::empty(),
            r matches Err(e) ==> e is DeviceUnavailable,
    {
        match PulseBackend::open(rate) {
            Ok(backend) => Ok(AudioSink { backend }),
            Err(e) => Err(e),
        }
    }

    pub fn sample_rate(&self) -> (r: SampleRate)
        ensures
            r == self.spec_rate(),
    {
        self.backend.sample_rate()
    }

    /// Plays audio produced at the stream's rate; audio at any other rate is
    /// refused before anything is queued.
    pub fn play<S: StopSignal>(&mut self, audio: PcmSamples, stop: &mut S) -> (r: Result<
        Playback,
        AudioError,
    >)
        ensures
            final(self).spec_rate() == old(self).spec_rate(),
            final(self).device_calls().subrange(0, old(self).device_calls().len() as int)
                == old(self).device_calls(),
            final(self).device_calls().len() >= old(self).device_calls().len(),
            audio.spec_rate()@ != old(self).spec_rate()@ ==> r == Err::<Playback, AudioError>(
                AudioError::RateMismatch {
                    stream_hz: old(self).spec_rate()@,
                    audio_hz: audio.spec_rate()@,
                },
            ) && final(self).device_calls() == old(self).device_calls(),
            audio.spec_rate()@ == old(self).spec_rate()@ ==> write_calls(
                audio.spec_samples(),
                final(self).device_calls().skip(old(self).device_calls().len() as int),
                r,
            ),
            audio.spec_rate()@ == old(self).spec_rate()@ && audio.spec_samples().len() == 0 ==> r
                == Ok::<Playback, AudioError>(Playback::Completed),
            audio.spec_rate()@ != old(self).spec_rate()@ || audio.spec_samples().len() == 0
                ==> *final(stop) == *old(stop),
            audio.spec_rate()@ == old(self).spec_rate()@ ==> (r matches Err(e) ==> e is WriteFailed),
    {
        let stream_rate = self.sample_rate();
        match check_stream_rate(stream_rate, audio) {
            Ok(()) => {},
            Err(e) => {
                proof {
                    assert(self.device_calls().subrange(0, self.device_calls().len() as int)
                        =~= self.device_calls());
                }
                return Err(e);
            },
        }
        self.backend.write(audio.samples(), stop)
    }

    /// Plays `duration` of silence, in whole frames at the stream's rate:
    /// the same as playing that many zero samples.
    pub fn play_silence<S: StopSignal>(&mut self, duration: Duration, stop: &mut S) -> (r: Result<
        Playback,
        AudioError,
    >)
        requires
            frames_for(old(self).spec_rate()@ as nat, duration_nanos(duration)) <= usize::MAX,
        ensures
            final(self).spec_rate() == old(self).spec_rate(),
            final(self).device_calls().subrange(0, old(self).device_calls().len() as int)
                == old(self).device_calls(),
            final(self).device_calls().len() >= old(self).device_calls().len(),
            write_calls(
                zeros(frames_for(old(self).spec_rate()@ as nat, duration_nanos(duration))),
                final(self).device_calls().skip(old(self).device_calls().len() as int),
                r,
            ),
            frames_for(old(self).spec_rate()@ as nat, duration_nanos(duration)) == 0 ==> r == Ok::<
                Playback,
                AudioError,
            >(Playback::Completed),
            frames_for(old(self).spec_rate()@ as nat, duration_nanos(duration)) == 0 ==> *final(stop)
                == *old(stop),
            r matches Err(e) ==> (e matches AudioError::WriteFailed { detail } && (has_prefix(
                detail@,
                "PulseAudio write failed: "@,
            ) || has_prefix(detail@, "PulseAudio flush failed: "@))),
    {
        let silence = silence_for(self.sample_rate(), duration);
        proof {
            assert(silence@ =~= zeros(frames_for(self.spec_rate()@ as nat, duration_nanos(duration))));
        }
        self.backend.write(silence.as_slice(), stop)
    }

    /// Waits until everything queued has played.
    pub fn drain(&mut self) -> (r: Result<(), AudioError>)
        ensures
            final(self).spec_rate() == old(self).spec_rate(),
            final(self).device_calls() == old(self).device_calls().push(DeviceCall::Drain),
            r matches Err(e) ==> (e matches AudioError::WriteFailed { detail } && has_prefix(
                detail@,
                "PulseAudio drain failed: "@,
            )),
    {
        self.backend.drain()
    }

    /// Drops everything queued.
    pub fn discard(&mut self) -> (r: Result<(), AudioError>)
        ensures
            final(self).spec_rate() == old(self).spec_rate(),
            final(self).device_calls() == old(self).device_calls().push(DeviceCall::Flush),
            r matches Err(e) ==> (e matches AudioError::WriteFailed { detail } && has_prefix(
                detail@,
                "PulseAudio flush failed: "@,
            )),
    {
        self.backend.discard()
    }
}

} // verus!
