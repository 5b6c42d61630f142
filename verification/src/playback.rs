use std::time::Duration;
use vstd::prelude::*;
use crate::audio_error::AudioError;
use crate::pcm::{duration_nanos, frames_for, PcmSamples, SampleRate};

verus! {

/// How a playback request ended.
#[derive(Clone, Copy, Debug, PartialEq, Eq, Structural)]
pub enum Playback {
    Completed,
    Interrupted,
}

/// Asked between chunks whether playback should stop early.
pub trait StopSignal {
    fn should_stop(&mut self) -> bool;
}

/// Frames handed to the sound server per write; the stop signal is polled
/// once per chunk.
pub const PLAYBACK_CHUNK_FRAMES: usize = 2048;

/// Where a chunked write stands: `submitted` of `total` samples have been
/// handed to the device, in order, in chunks of at most
/// `PLAYBACK_CHUNK_FRAMES`.
#[derive(Clone, Copy, Debug, PartialEq, Eq, Structural)]
pub struct ChunkedWrite {
    pub total: usize,
    pub submitted: usize,
}

/// What to do next in a chunked write.
#[derive(Clone, Copy, Debug, PartialEq, Eq, Structural)]
pub enum WriteAction {
    /// Hand samples `start..end` to the device.
    Submit { start: usize, end: usize },
    /// Stop was requested: drop what is queued and report an interruption.
    Discard,
}

/// The end of the chunk that starts at `start`.
pub open spec fn chunk_end(total: nat, start: nat) -> nat {
    if start + 2048 < total {
        start + 2048
    } else {
        total
    }
}

impl ChunkedWrite {
    pub open spec fn wf(self) -> bool {
        self.submitted <= self.total
    }

    pub fn new(total: usize) -> (r: Self)
        ensures
            r.wf(),
            r.total == total,
            r.submitted == 0,
    {
        ChunkedWrite { total, submitted: 0 }
    }

    /// The next chunk, or `None` once every sample has been handed over.
    pub fn pending(&self) -> (r: Option<(usize, usize)>)
        requires
            self.wf(),
        ensures
            self.submitted == self.total ==> r is None,
            self.submitted < self.total ==> r == Some(
                (self.submitted, chunk_end(self.total as nat, self.submitted as nat) as usize),
            ),
    {
        if self.submitted == self.total {
            None
        } else if self.total - self.submitted > PLAYBACK_CHUNK_FRAMES {
            Some((self.submitted, self.submitted + PLAYBACK_CHUNK_FRAMES))
        } else {
            Some((self.submitted, self.total))
        }
    }

    /// Decides the pending chunk once the stop signal has been polled: a stop
    /// discards it and everything after it, otherwise it is submitted.
    pub fn on_chunk(&mut self, stop_requested: bool) -> (r: WriteAction)
        requires
            old(self).wf(),
            old(self).submitted < old(self).total,
        ensures
            final(self).wf(),
            final(self).total == old(self).total,
            stop_requested ==> r == WriteAction::Discard && final(self).submitted == old(
                self,
            ).submitted,
            !stop_requested ==> r == (WriteAction::Submit {
                start: old(self).submitted,
                end: final(self).submitted,
            }) && final(self).submitted == chunk_end(
                old(self).total as nat,
                old(self).submitted as nat,
            ),
    {
        if stop_requested {
            return WriteAction::Discard;
        }
        let start = self.submitted;
        let end = if self.total - start > PLAYBACK_CHUNK_FRAMES {
            start + PLAYBACK_CHUNK_FRAMES
        } else {
            self.total
        };
        self.submitted = end;
        WriteAction::Submit { start, end }
    }
}

/// Where a chunked write goes once the device has answered for an action.
#[derive(Debug)]
pub enum WriteProgress {
    /// The chunk is in; go on with the next one.
    Continue,
    /// The write is over, with this result.
    Finished(Result<Playback, AudioError>),
}

/// A submitted chunk that the device took lets the write go on; a discard
/// the device carried out ends it as interrupted; a device failure ends it
/// with that failure.
pub fn write_progress(action: WriteAction, outcome: Result<(), AudioError>) -> (r: WriteProgress)
    ensures
        action is Submit && outcome is Ok ==> r is Continue,
        action is Discard && outcome is Ok ==> r == WriteProgress::Finished(Ok(Playback::Interrupted)),
        outcome matches Err(e) ==> r == WriteProgress::Finished(Err(e)),
{
    match outcome {
        Err(e) => WriteProgress::Finished(Err(e)),
        Ok(()) => match action {
            WriteAction::Submit { .. } => WriteProgress::Continue,
            WriteAction::Discard => WriteProgress::Finished(Ok(Playback::Interrupted)),
        },
    }
}

/// Every submitted chunk is non-empty, at most `PLAYBACK_CHUNK_FRAMES` long,
/// and starts where the previous one ended, so a write that is never stopped
/// hands over every sample exactly once, in order.
pub proof fn lemma_chunks_tile(total: nat, start: nat)
    requires
        start < total,
    ensures
        start < chunk_end(total, start) <= total,
        chunk_end(total, start) - start <= 2048,
{
}

/// The two bytes of a sample, least significant first.
pub open spec fn le_bytes(sample: i16) -> Seq<u8> {
    seq![((sample as u16) & 0xff) as u8, ((sample as u16) >> 8) as u8]
}

/// The bytes of a run of samples as the device takes them: each sample as
/// two little-endian bytes.
pub open spec fn pcm_bytes(samples: Seq<i16>) -> Seq<u8>
    decreases samples.len(),
{
    if samples.len() == 0 {
        seq![]
    } else {
        pcm_bytes(samples.drop_last()) + le_bytes(samples.last())
    }
}

/// The sample whose little-endian bytes are `lo` and `hi`.
pub open spec fn sample_from_le(lo: u8, hi: u8) -> i16 {
    ((lo as u16) | ((hi as u16) << 8)) as i16
}

/// Reading the two bytes back gives the sample that was written.
pub proof fn lemma_le_bytes_round_trip(sample: i16)
    ensures
        sample_from_le(le_bytes(sample)[0], le_bytes(sample)[1]) == sample,
{
    let lo = ((sample as u16) & 0xff) as u8;
    let hi = ((sample as u16) >> 8) as u8;
    assert(((lo as u16) | ((hi as u16) << 8)) as i16 == sample) by (bit_vector)
        requires
            lo == ((sample as u16) & 0xff) as u8,
            hi == ((sample as u16) >> 8) as u8,
    ;
}

/// The bytes handed to the sound server for a chunk of samples.
pub fn samples_to_le_bytes(samples: &[i16]) -> (r: Vec<u8>)
    ensures
        r@ == pcm_bytes(samples@),
        r@.len() == 2 * samples@.len(),
{
    let mut out: Vec<u8> = Vec::new();
    let mut i: usize = 0;
    while i < samples.len()
        invariant
            i <= samples@.len(),
            out@ == pcm_bytes(samples@.subrange(0, i as int)),
            out@.len() == 2 * i,
        decreases samples.len() - i,
    {
        let s = samples[i];
        let bits = s as u16;
        out.push((bits & 0xff) as u8);
        out.push((bits >> 8) as u8);
        proof {
            let prefix = samples@.subrange(0, i + 1);
            assert(prefix.drop_last() =~= samples@.subrange(0, i as int));
            assert(prefix.last() == s);
        }
        i = i + 1;
    }
    assert(samples@.subrange(0, samples@.len() as int) =~= samples@);
    out
}

/// Audio for a stream must be at the stream's own rate.
pub fn check_stream_rate(stream_rate: SampleRate, audio: PcmSamples) -> (r: Result<(), AudioError>)
    ensures
        audio.spec_rate()@ == stream_rate@ ==> r is Ok,
        audio.spec_rate()@ != stream_rate@ ==> r == Err::<(), AudioError>(
            AudioError::RateMismatch { stream_hz: stream_rate@, audio_hz: audio.spec_rate()@ },
        ),
{
    let audio_rate = audio.rate();
    if audio_rate.hz() != stream_rate.hz() {
        return Err(
            AudioError::RateMismatch { stream_hz: stream_rate.hz(), audio_hz: audio_rate.hz() },
        );
    }
    Ok(())
}

/// Silent samples that last `duration` at `rate`, in whole frames.
pub fn silence_for(rate: SampleRate, duration: Duration) -> (r: Vec<i16>)
    requires
        frames_for(rate@ as nat, duration_nanos(duration)) <= usize::MAX,
    ensures
        r@.len() == frames_for(rate@ as nat, duration_nanos(duration)),
        forall|i: int| 0 <= i < r@.len() ==> r@[i] == 0,
{
    let frames = rate.frames_in(duration);
    let mut out: Vec<i16> = Vec::new();
    let mut i: usize = 0;
    while i < frames
        invariant
            i <= frames,
            out@.len() == i,
            forall|k: int| 0 <= k < out@.len() ==> out@[k] == 0,
        decreases frames - i,
    {
        out.push(0);
        i = i + 1;
    }
    out
}

/// The byte size of `duration` of audio at `rate`, as the sound server's
/// buffer attributes take it.
pub fn bytes_for(rate: SampleRate, duration: Duration) -> (r: u32)
    requires
        frames_for(rate@ as nat, duration_nanos(duration)) * 2 <= u32::MAX,
    ensures
        r == frames_for(rate@ as nat, duration_nanos(duration)) * 2,
{
    let frames = rate.frames_in(duration);
    (frames * 2) as u32
}

} // verus!
