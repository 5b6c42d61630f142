use std::time::Duration;
use vstd::prelude::*;
use crate::audio_error::AudioError;
use crate::pcm::{duration_as_nanos, duration_from_nanos, duration_nanos, nanos_for, SampleRate};
use crate::playback::Playback;
use crate::wasapi_format::{describe, description, HrCode};

verus! {

// ---------------------------------------------------------------------------
// A shared-mode WASAPI render stream, as decisions: the COM calls, the
// endpoint buffer and the sleeping are done by the caller, which hands back
// what the device reported.
// ---------------------------------------------------------------------------

/// The buffer asked of `IAudioClient::Initialize`, in 100 ns units: a tenth
/// of a second keeps the endpoint fed without delaying a stop by more.
pub const BUFFER_DURATION_HNS: i64 = 1_000_000;

/// `RPC_E_CHANGED_MODE`: the thread already joined another COM apartment.
pub const RPC_E_CHANGED_MODE: i32 = -2147417850;

/// Whether the stream is playing.
#[derive(Clone, Copy, Debug, PartialEq, Eq, Structural)]
pub enum StreamState {
    Stopped,
    Running,
}

/// Whether this stream joined COM itself (and must leave it) or found the
/// thread already in an apartment.
#[derive(Clone, Copy, Debug, PartialEq, Eq, Structural)]
pub enum ComApartment {
    Owned,
    Inherited,
}

/// The apartment after `CoInitializeEx` answered `hr`: a thread already in
/// another apartment keeps it, any other failure leaves no device.
pub fn enter_apartment(hr: HrCode, message: &str) -> (r: Result<ComApartment, AudioError>)
    ensures
        hr.0 == RPC_E_CHANGED_MODE ==> r == Ok::<ComApartment, AudioError>(ComApartment::Inherited),
        hr.0 != RPC_E_CHANGED_MODE && hr.0 < 0 ==> (r matches Err(AudioError::DeviceUnavailable { detail })
            && detail@ == description("CoInitializeEx"@, hr, message@)),
        hr.0 >= 0 ==> r == Ok::<ComApartment, AudioError>(ComApartment::Owned),
{
    if hr.0 == RPC_E_CHANGED_MODE {
        return Ok(ComApartment::Inherited);
    }
    if hr.0 < 0 {
        return Err(AudioError::DeviceUnavailable { detail: describe("CoInitializeEx", hr, message) });
    }
    Ok(ComApartment::Owned)
}

/// A failed device call, while opening the stream.
pub fn device_error(operation: &str, hr: HrCode, message: &str) -> (r: AudioError)
    ensures
        r matches AudioError::DeviceUnavailable { detail } && detail@ == description(
            operation@,
            hr,
            message@,
        ),
{
    AudioError::DeviceUnavailable { detail: describe(operation, hr, message) }
}

/// A failed device call, while writing.
pub fn write_error(operation: &str, hr: HrCode, message: &str) -> (r: AudioError)
    ensures
        r matches AudioError::WriteFailed { detail } && detail@ == description(
            operation@,
            hr,
            message@,
        ),
{
    AudioError::WriteFailed { detail: describe(operation, hr, message) }
}

/// How far a write of `total` samples has got: `submitted` are in the
/// endpoint buffer.
#[derive(Clone, Copy, Debug, PartialEq, Eq, Structural)]
pub struct BufferedWrite {
    pub total: usize,
    pub submitted: usize,
}

impl BufferedWrite {
    pub open spec fn wf(self) -> bool {
        self.submitted <= self.total
    }

    pub fn new(total: usize) -> (r: Self)
        ensures
            r.wf(),
            r.total == total,
            r.submitted == 0,
    {
        BufferedWrite { total, submitted: 0 }
    }

    pub fn done(&self) -> (r: bool)
        ensures
            r == (self.submitted >= self.total),
    {
        self.submitted >= self.total
    }

    /// The samples to copy next, given the buffer size and the frames still
    /// queued in it: as many as are free, up to the rest of the write; none
    /// when the buffer is full, which means waiting half a buffer.
    pub fn next_chunk(&self, buffer_frames: u32, padding: u32) -> (r: Option<(usize, usize)>)
        requires
            self.wf(),
            self.submitted < self.total,
            padding <= buffer_frames,
        ensures
            buffer_frames == padding ==> r is None,
            buffer_frames > padding ==> r == Some(
                (
                    self.submitted,
                    (if (buffer_frames - padding) < self.total - self.submitted {
                        self.submitted + (buffer_frames - padding)
                    } else {
                        self.total as int
                    }) as usize,
                ),
            ),
    {
        let free = buffer_frames - padding;
        if free == 0 {
            return None;
        }
        let remaining = self.total - self.submitted;
        let count = if (free as usize) < remaining {
            free as usize
        } else {
            remaining
        };
        Some((self.submitted, self.submitted + count))
    }

    /// The chunk ending at `end` is in the buffer.
    pub fn advance(&mut self, end: usize)
        requires
            old(self).submitted < end <= old(self).total,
        ensures
            final(self).wf(),
            final(self).total == old(self).total,
            final(self).submitted == end,
    {
        self.submitted = end;
    }
}

/// How long to wait for a full buffer to drain by half.
pub fn half_buffer_duration(rate: SampleRate, buffer_frames: u32) -> (r: Duration)
    requires
        nanos_for(rate@ as nat, (buffer_frames / 2) as nat) <= u64::MAX,
    ensures
        duration_nanos(r) == nanos_for(rate@ as nat, (buffer_frames / 2) as nat),
{
    rate.duration_of((buffer_frames / 2) as usize)
}

/// While draining: once nothing is queued the stream stops; until then, wait
/// as long as the queued frames last, and at least a millisecond.
pub fn drain_wait(rate: SampleRate, padding: u32) -> (r: Option<Duration>)
    ensures
        padding == 0 ==> r is None,
        padding > 0 ==> (r matches Some(d) && duration_nanos(d) == (if nanos_for(rate@ as nat, padding as nat) < 1_000_000 {
            1_000_000
        } else {
            nanos_for(rate@ as nat, padding as nat)
        })),
{
    if padding == 0 {
        return None;
    }
    let hz = rate.hz();
    proof {
        assert(nanos_for(rate@ as nat, padding as nat) <= u64::MAX) by (nonlinear_arith)
            requires
                rate@ > 0,
                padding <= u32::MAX,
                nanos_for(rate@ as nat, padding as nat) == ((padding * 1_000_000_000 + rate@ - 1)
                    / (rate@ as int)) as nat,
        {
            assert(padding * 1_000_000_000 + rate@ - 1 <= 4294967295 * 1_000_000_000 + 4294967295);
        }
    }
    let exact = rate.duration_of(padding as usize);
    let nanos = duration_as_nanos(exact);
    if nanos < 1_000_000 {
        Some(duration_from_nanos(1_000_000))
    } else {
        Some(exact)
    }
}

/// Cancellation is only as quick as this slice of sleep.
pub const SLEEP_SLICE_NANOS: u64 = 20_000_000;

/// What an interruptible sleep does next.
#[derive(Clone, Copy, Debug, PartialEq, Eq, Structural)]
pub enum SleepStep {
    Finish(Playback),
    /// Sleep this many nanoseconds and ask again.
    Sleep(u64),
}

/// A stop request ends the sleep as interrupted; once the deadline has
/// passed it completes; otherwise it sleeps the rest, at most one slice.
pub fn sleep_step(stop_requested: bool, remaining_nanos: u64) -> (r: SleepStep)
    ensures
        stop_requested ==> r == SleepStep::Finish(Playback::Interrupted),
        !stop_requested && remaining_nanos == 0 ==> r == SleepStep::Finish(Playback::Completed),
        !stop_requested && remaining_nanos > 0 ==> r == SleepStep::Sleep(
            if remaining_nanos < SLEEP_SLICE_NANOS {
                remaining_nanos
            } else {
                SLEEP_SLICE_NANOS
            },
        ),
{
    if stop_requested {
        return SleepStep::Finish(Playback::Interrupted);
    }
    if remaining_nanos == 0 {
        return SleepStep::Finish(Playback::Completed);
    }
    if remaining_nanos < SLEEP_SLICE_NANOS {
        SleepStep::Sleep(remaining_nanos)
    } else {
        SleepStep::Sleep(SLEEP_SLICE_NANOS)
    }
}

} // verus!
