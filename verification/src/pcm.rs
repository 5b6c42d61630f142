use std::time::Duration;
use vstd::prelude::*;
use crate::audio_error::AudioError;

verus! {

pub const CHANNELS: u16 = 1;
pub const BITS_PER_SAMPLE: u16 = 16;
/// One mono frame of 16-bit samples.
pub const BYTES_PER_FRAME: usize = 2;

pub const NANOS_PER_SEC: u128 = 1_000_000_000;

/// The number of whole nanoseconds in a `Duration`, as `Duration::as_nanos`
/// reports it.
pub uninterp spec fn duration_nanos(d: Duration) -> nat;

/// Calls `Duration::as_nanos`. A `Duration` is at most `u64::MAX` whole
/// seconds plus a fraction below one second, so the count stays below
/// `(u64::MAX + 1) * 10^9`.
#[verifier::external_body]
pub(crate) fn duration_as_nanos(d: Duration) -> (r: u128)
    ensures
        r == duration_nanos(d),
        r < 18446744073709551616000000000,
{
    d.as_nanos()
}

/// Calls `Duration::from_nanos`; reading the length back gives `nanos`.
#[verifier::external_body]
pub(crate) fn duration_from_nanos(nanos: u64) -> (d: Duration)
    ensures
        duration_nanos(d) == nanos,
{
    Duration::from_nanos(nanos)
}

/// A duration of `nanos` nanoseconds, for callers that state lengths as
/// nanosecond counts.
pub fn duration_of_nanos(nanos: u64) -> (d: Duration)
    ensures
        duration_nanos(d) == nanos,
{
    duration_from_nanos(nanos)
}

/// A playback rate in frames per second; never zero.
#[derive(Clone, Copy, Debug, PartialEq, Eq, Structural)]
pub struct SampleRate(u32);

impl View for SampleRate {
    type V = u32;

    closed spec fn view(&self) -> u32 {
        self.0
    }
}

/// Whole frames that fit in `nanos` nanoseconds at `hz`.
pub open spec fn frames_for(hz: nat, nanos: nat) -> nat {
    (nanos * hz / 1_000_000_000) as nat
}

/// Nanoseconds that `frames` frames last at `hz`, rounded up.
pub open spec fn nanos_for(hz: nat, frames: nat) -> nat
    recommends
        hz > 0,
{
    ((frames * 1_000_000_000 + hz - 1) / (hz as int)) as nat
}

impl SampleRate {
    #[verifier::type_invariant]
    spec fn positive(self) -> bool {
        self.0 > 0
    }

    pub fn try_from(hz: i32) -> (r: Result<SampleRate, AudioError>)
        ensures
            hz > 0 ==> (r matches Ok(rate) && rate@ == hz),
            hz <= 0 ==> r == Err::<SampleRate, AudioError>(AudioError::InvalidSampleRate { hz }),
    {
        if hz > 0 {
            Ok(SampleRate(hz as u32))
        } else {
            Err(AudioError::InvalidSampleRate { hz })
        }
    }

    pub fn hz(self) -> (r: u32)
        ensures
            r == self@,
            r > 0,
    {
        proof {
            use_type_invariant(self);
        }
        self.0
    }

    /// Whole frames that `duration` holds at this rate; a trailing part of a
    /// frame does not count.
    pub fn frames_in(self, duration: Duration) -> (r: usize)
        requires
            frames_for(self@ as nat, duration_nanos(duration)) <= usize::MAX,
        ensures
            r == frames_for(self@ as nat, duration_nanos(duration)),
    {
        let nanos = duration_as_nanos(duration);
        let hz = self.hz() as u128;
        assert(nanos * hz <= 18446744073709551616000000000 * 4294967295) by (nonlinear_arith)
            requires
                nanos < 18446744073709551616000000000,
                hz <= 4294967295,
        ;
        let frames = nanos * hz / NANOS_PER_SEC;
        frames as usize
    }

    /// How long `frames` frames last at this rate, rounded up to the next
    /// nanosecond so that waiting it out never ends before the audio does.
    pub fn duration_of(self, frames: usize) -> (r: Duration)
        requires
            nanos_for(self@ as nat, frames as nat) <= u64::MAX,
        ensures
            duration_nanos(r) == nanos_for(self@ as nat, frames as nat),
    {
        let hz = self.hz() as u128;
        let f = frames as u128;
        assert(f * 1_000_000_000 <= 18446744073709551615 * 1_000_000_000) by (nonlinear_arith)
            requires
                f <= 18446744073709551615,
        ;
        let nanos = (f * NANOS_PER_SEC + hz - 1) / hz;
        duration_from_nanos(nanos as u64)
    }
}

/// Converting a frame count to a duration and back gives the same count,
/// for every rate up to one frame per nanosecond.
pub proof fn lemma_duration_round_trip(hz: nat, frames: nat)
    requires
        0 < hz <= 1_000_000_000,
    ensures
        frames_for(hz, nanos_for(hz, frames)) == frames,
{
    let n = nanos_for(hz, frames);
    let a = frames * 1_000_000_000;
    assert(n * hz >= a && n * hz < a + hz) by (nonlinear_arith)
        requires
            hz > 0,
            n == (a + hz - 1) / (hz as int),
            a >= 0,
    ;
    assert((n * hz) / 1_000_000_000 == frames) by (nonlinear_arith)
        requires
            n * hz >= a,
            n * hz < a + hz,
            hz <= 1_000_000_000,
            a == frames * 1_000_000_000,
    ;
}

/// The duration of a chunk covers all of its frames: it is never shorter
/// than the frames last.
pub proof fn lemma_duration_covers_frames(hz: nat, frames: nat)
    requires
        hz > 0,
    ensures
        nanos_for(hz, frames) * hz >= frames * 1_000_000_000,
{
    let a = frames * 1_000_000_000;
    let n = nanos_for(hz, frames);
    assert(n * hz >= a) by (nonlinear_arith)
        requires
            hz > 0,
            n == (a + hz - 1) / (hz as int),
            a >= 0,
    ;
}

/// Samples tagged with the rate they were produced at, so a sink can refuse
/// audio that does not belong to the stream it opened.
#[derive(Clone, Copy, Debug)]
pub struct PcmSamples<'a> {
    rate: SampleRate,
    samples: &'a [i16],
}

impl<'a> PcmSamples<'a> {
    pub closed spec fn spec_rate(self) -> SampleRate {
        self.rate
    }

    pub closed spec fn spec_samples(self) -> Seq<i16> {
        self.samples@
    }

    pub fn new(rate: SampleRate, samples: &'a [i16]) -> (r: Self)
        ensures
            r.spec_rate() == rate,
            r.spec_samples() == samples@,
    {
        PcmSamples { rate, samples }
    }

    pub fn rate(self) -> (r: SampleRate)
        ensures
            r == self.spec_rate(),
    {
        self.rate
    }

    pub fn samples(self) -> (r: &'a [i16])
        ensures
            r@ == self.spec_samples(),
    {
        self.samples
    }
}

} // verus!
