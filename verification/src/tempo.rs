//! Tempo tracking: the conversion of tick deltas into microsecond delays.

use vstd::prelude::*;

verus! {

/// The timing state of one playback.
///
/// `ticks_per_beat` is the file's resolution and stays fixed once set; it is
/// zero for a file that does not use metrical timing. `microseconds_per_beat`
/// is the tempo most recently observed and is zero until one is seen.
#[derive(Clone, Copy, Debug, PartialEq, Eq, Structural)]
pub struct TempoState {
    pub ticks_per_beat: u32,
    pub microseconds_per_beat: u32,
}

/// The length of one tick in whole microseconds, rounded down.
pub open spec fn micros_per_tick(state: TempoState) -> int
    recommends
        state.ticks_per_beat != 0,
{
    state.microseconds_per_beat as int / state.ticks_per_beat as int
}

/// The delay that `delta_ticks` ticks stand for under `state`: the tick length
/// is truncated to whole microseconds before it is multiplied.
pub open spec fn delay_micros(state: TempoState, delta_ticks: u32) -> int
    recommends
        state.ticks_per_beat != 0,
{
    delta_ticks as int * micros_per_tick(state)
}

/// A delay never exceeds the product of two 32-bit values, so it fits in 64 bits.
pub proof fn lemma_delay_fits(state: TempoState, delta_ticks: u32)
    requires
        state.ticks_per_beat != 0,
    ensures
        0 <= micros_per_tick(state) <= state.microseconds_per_beat,
        0 <= delay_micros(state, delta_ticks) <= u64::MAX,
{
    let q = micros_per_tick(state);
    let m = state.microseconds_per_beat as int;
    let t = state.ticks_per_beat as int;
    let d = delta_ticks as int;
    assert(0 <= q <= m) by (nonlinear_arith)
        requires
            q == m / t,
            m >= 0,
            t >= 1,
    ;
    assert(0 <= d * q <= 0xffff_ffff * 0xffff_ffff) by (nonlinear_arith)
        requires
            0 <= d <= 0xffff_ffff,
            0 <= q <= 0xffff_ffff,
    ;
}

impl TempoState {
    /// The state before the header and any tempo event have been seen.
    pub fn new() -> (state: TempoState)
        ensures
            state.ticks_per_beat == 0,
            state.microseconds_per_beat == 0,
    {
        TempoState { ticks_per_beat: 0, microseconds_per_beat: 0 }
    }

    /// Records the file's resolution. The tempo is left as it is.
    pub fn set_ticks_per_beat(&mut self, value: u32)
        ensures
            final(self).ticks_per_beat == value,
            final(self).microseconds_per_beat == old(self).microseconds_per_beat,
    {
        self.ticks_per_beat = value;
    }

    /// Replaces the current tempo, whatever it was.
    pub fn observe_tempo(&mut self, microseconds_per_beat: u32)
        ensures
            final(self).microseconds_per_beat == microseconds_per_beat,
            final(self).ticks_per_beat == old(self).ticks_per_beat,
    {
        self.microseconds_per_beat = microseconds_per_beat;
    }

    /// Whether tick deltas can be converted to time at all.
    pub fn supports_timing(&self) -> (yes: bool)
        ensures
            yes == (self.ticks_per_beat != 0),
    {
        self.ticks_per_beat != 0
    }

    /// The delay in microseconds for `delta_ticks` ticks at the current tempo.
    ///
    /// A zero resolution has no tick length; callers that cannot rule it out
    /// use [`TempoState::checked_delay_for`].
    pub fn delay_for(&self, delta_ticks: u32) -> (micros: u64)
        requires
            self.ticks_per_beat != 0,
        ensures
            micros == delay_micros(*self, delta_ticks),
    {
        proof {
            lemma_delay_fits(*self, delta_ticks);
        }
        let per_tick: u32 = self.microseconds_per_beat / self.ticks_per_beat;
        let delta: u64 = delta_ticks as u64;
        delta * (per_tick as u64)
    }

    /// As [`TempoState::delay_for`], but answers `None` when the resolution is
    /// zero instead of demanding that it is not.
    pub fn checked_delay_for(&self, delta_ticks: u32) -> (micros: Option<u64>)
        ensures
            self.ticks_per_beat == 0 ==> micros is None,
            self.ticks_per_beat != 0 ==> micros == Some(delay_micros(*self, delta_ticks) as u64),
            self.ticks_per_beat != 0 ==> delay_micros(*self, delta_ticks) <= u64::MAX,
    {
        if self.ticks_per_beat == 0 {
            None
        } else {
            proof {
                lemma_delay_fits(*self, delta_ticks);
            }
            Some(self.delay_for(delta_ticks))
        }
    }
}

} // verus!
