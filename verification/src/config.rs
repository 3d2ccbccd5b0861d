//! Configuration surface of the insights engine.
//!
//! Loaded externally and validated once at wiring time: an invalid
//! window bound or threshold pair is the one failure that is fatal at
//! startup rather than tolerated per cycle.

use vstd::prelude::*;
use vstd::string::StringExecFns;
use crate::error::AppError;

verus! {

/// All knobs the engine consumes. Thresholds and margins are
/// configuration, never hardcoded constants.
#[derive(Clone, Copy, Debug)]
pub struct InsightsConfig {
    /// Sample-count bound of the sliding window; must be at least 1.
    pub window_size: usize,
    /// Reference fee the snapshot reports alongside the aggregates.
    pub base_fee: u64,
    /// Averages strictly above this enter `Congested`.
    pub congestion_high_threshold: u64,
    /// Averages strictly below this leave `Congested`; at most the high
    /// threshold, giving the hysteresis margin.
    pub congestion_low_threshold: u64,
    /// Consecutive fetch failures at or beyond this count surface the
    /// engine status as `Degraded`.
    pub failure_threshold: u32,
    /// When set, a cycle that fetched zero points emits no new
    /// snapshot; when clear, every completed cycle re-snapshots with a
    /// fresh capture time.
    pub snapshot_on_change_only: bool,
    /// Scheduling period of the ingestion loop, for the runner outside
    /// the library; the engine itself is tick-driven.
    pub polling_interval_seconds: u64,
}

impl InsightsConfig {
    /// A window must be able to hold a sample, and the hysteresis band
    /// must not be inverted.
    pub open spec fn wf(self) -> bool {
        self.window_size >= 1 && self.congestion_low_threshold <= self.congestion_high_threshold
    }

    /// Accept exactly the well-formed configurations; anything else is
    /// a startup-fatal configuration error.
    pub fn validate(&self) -> (r: Result<(), AppError>)
        ensures
            r is Ok <==> self.wf(),
            r matches Err(e) ==> e is Config,
    {
        if self.window_size < 1 {
            Err(AppError::Config(String::from_str("window size must be at least 1")))
        } else if self.congestion_low_threshold > self.congestion_high_threshold {
            Err(
                AppError::Config(
                    String::from_str("congestion low threshold must not exceed high threshold"),
                ),
            )
        } else {
            Ok(())
        }
    }
}

} // verus!
