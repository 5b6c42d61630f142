use vstd::prelude::*;
use crate::pcm::PcmSamples;

verus! {

/// The playback stream on platforms without a sound-server backend: it takes
/// every request and plays nothing.
pub struct PulsePlaybackStream;

impl PulsePlaybackStream {
    pub fn new(_sample_rate: i32) -> (r: Result<Self, String>)
        ensures
            r is Ok,
    {
        Ok(PulsePlaybackStream)
    }

    pub fn write_audio<F: FnMut() -> bool>(&self, _audio: &PcmSamples, _should_stop: &mut F) -> (r:
        Result<(), String>)
        ensures
            r is Ok,
    {
        Ok(())
    }

    pub fn write_pause_ms<F: FnMut() -> bool>(&self, _duration_ms: i32, _should_stop: &mut F) -> (r:
        Result<(), String>)
        ensures
            r is Ok,
    {
        Ok(())
    }

    pub fn flush(&self) -> (r: Result<(), String>)
        ensures
            r is Ok,
    {
        Ok(())
    }
}

} // verus!
