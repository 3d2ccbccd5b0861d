//! Congestion classification with hysteresis.
//!
//! The detector is pure in its inputs — the rolling average and the two
//! configured thresholds — except for the state flag it carries across
//! cycles: it enters `Congested` when the average exceeds the high
//! threshold and leaves only when the average falls strictly below the
//! lower hysteresis threshold, so noisy data cannot make it flap.

use vstd::prelude::*;

verus! {

/// Detector-declared network condition.
#[derive(Clone, Copy, Debug, PartialEq, Eq, Structural)]
pub enum CongestionState {
    Normal,
    Congested,
}

/// The transition rule: from `Normal`, an average strictly above `high`
/// enters `Congested`; from `Congested`, only an average strictly below
/// `low` returns to `Normal`.
pub open spec fn spec_step(
    state: CongestionState,
    avg: u64,
    high: u64,
    low: u64,
) -> CongestionState {
    match state {
        CongestionState::Normal => if avg > high {
            CongestionState::Congested
        } else {
            CongestionState::Normal
        },
        CongestionState::Congested => if avg < low {
            CongestionState::Normal
        } else {
            CongestionState::Congested
        },
    }
}

/// The state after feeding a whole sequence of averages, oldest first.
pub open spec fn spec_run(
    state: CongestionState,
    avgs: Seq<u64>,
    high: u64,
    low: u64,
) -> CongestionState
    decreases avgs.len(),
{
    if avgs.len() == 0 {
        state
    } else {
        spec_run(spec_step(state, avgs[0], high, low), avgs.drop_first(), high, low)
    }
}

/// Hysteresis is a monotonic commitment: once `Congested`, the detector
/// stays `Congested` through any sequence of averages that never falls
/// strictly below the low threshold — even if they re-cross the high
/// threshold in between.
pub proof fn lemma_hysteresis_commitment(avgs: Seq<u64>, high: u64, low: u64)
    requires
        low <= high,
        forall|i: int| 0 <= i < avgs.len() ==> avgs[i] >= low,
    ensures
        spec_run(CongestionState::Congested, avgs, high, low) == CongestionState::Congested,
    decreases avgs.len(),
{
    if avgs.len() > 0 {
        assert(avgs[0] >= low);
        lemma_hysteresis_commitment(avgs.drop_first(), high, low);
    }
}

/// Entry needs more than the high threshold: from `Normal`, a sequence
/// of averages that never exceeds `high` leaves the detector `Normal`.
pub proof fn lemma_no_spurious_entry(avgs: Seq<u64>, high: u64, low: u64)
    requires
        low <= high,
        forall|i: int| 0 <= i < avgs.len() ==> avgs[i] <= high,
    ensures
        spec_run(CongestionState::Normal, avgs, high, low) == CongestionState::Normal,
    decreases avgs.len(),
{
    if avgs.len() > 0 {
        assert(avgs[0] <= high);
        lemma_no_spurious_entry(avgs.drop_first(), high, low);
    }
}

/// The stateful congestion detector.
pub struct Detector {
    state: CongestionState,
}

impl Detector {
    /// The condition declared after the last evaluation.
    pub closed spec fn spec_state(self) -> CongestionState {
        self.state
    }

    /// A detector that has seen no elevated averages yet.
    pub fn new() -> (r: Detector)
        ensures
            r.spec_state() == CongestionState::Normal,
    {
        Detector { state: CongestionState::Normal }
    }

    /// The current condition.
    pub fn state(&self) -> (r: CongestionState)
        ensures
            r == self.spec_state(),
    {
        self.state
    }

    /// Evaluate one detection cycle against the configured thresholds.
    pub fn step(&mut self, avg: u64, high: u64, low: u64) -> (r: CongestionState)
        requires
            low <= high,
        ensures
            final(self).spec_state() == spec_step(old(self).spec_state(), avg, high, low),
            r == final(self).spec_state(),
    {
        let next = match self.state {
            CongestionState::Normal => if avg > high {
                CongestionState::Congested
            } else {
                CongestionState::Normal
            },
            CongestionState::Congested => if avg < low {
                CongestionState::Normal
            } else {
                CongestionState::Congested
            },
        };
        self.state = next;
        next
    }
}

} // verus!
