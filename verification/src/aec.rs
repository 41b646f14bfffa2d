//! Acoustic echo cancellation switch.
//!
//! The adaptive filter itself is retired: echo is removed by the lexical
//! deduplication of [`crate::live`].  What remains is the on/off switch
//! the UI toggles and a pass-through over the microphone samples.

use vstd::prelude::*;

verus! {

/// The echo-cancellation switch; off by default.
pub struct AecState {
    enabled: bool,
}

impl AecState {
    /// A switch in its default position: off.
    pub fn new() -> (r: Self)
        ensures
            !r.spec_enabled(),
    {
        AecState { enabled: false }
    }

    /// Whether echo cancellation is switched on.
    pub closed spec fn spec_enabled(self) -> bool {
        self.enabled
    }

    /// Whether echo cancellation is switched on.
    pub fn is_aec_enabled(&self) -> (r: bool)
        ensures
            r == self.spec_enabled(),
    {
        self.enabled
    }

    /// Switch echo cancellation on or off.
    pub fn set_aec_enabled(&mut self, enabled: bool)
        ensures
            final(self).spec_enabled() == enabled,
    {
        self.enabled = enabled;
    }

    /// Prepare the processor for a capture at the given rate; the
    /// retired filter needs nothing, so the switch is untouched.
    pub fn init_aec(&mut self, sample_rate: u32)
        ensures
            *final(self) == *old(self),
    {
        let _ = sample_rate;
    }

    /// Reset the processor; the retired filter holds no state.
    pub fn reset_aec(&mut self)
        ensures
            *final(self) == *old(self),
    {
    }
}

/// Apply echo cancellation to microphone samples: with the filter
/// retired, the samples pass through unchanged, and deduplication
/// downstream handles the echo.
pub fn apply_aec(mic_samples: &Vec<i16>, reference_samples: &Vec<i16>) -> (r: Vec<i16>)
    ensures
        r@ =~= mic_samples@,
{
    let _ = reference_samples;
    let mut out: Vec<i16> = Vec::new();
    let mut i: usize = 0;
    let n = mic_samples.len();
    while i < n
        invariant
            n == mic_samples@.len(),
            i <= n,
            out@ =~= mic_samples@.take(i as int),
        decreases n - i,
    {
        out.push(mic_samples[i]);
        proof {
            assert(mic_samples@.take(i + 1) =~= mic_samples@.take(i as int).push(
                mic_samples@[i as int],
            ));
        }
        i = i + 1;
    }
    proof {
        assert(mic_samples@.take(n as int) =~= mic_samples@);
    }
    out
}

} // verus!
