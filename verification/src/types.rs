//! Plain data carried through the engine: observation times, fee samples,
//! computed snapshots, and provider capability metadata.

use vstd::prelude::*;

verus! {

/// A UTC instant at one-second resolution, held as plain calendar fields.
///
/// The engine never does calendar arithmetic; it only carries instants
/// through and renders them as ISO-8601 text, so the well-formedness
/// bound on `day` is the coarse `1..=31` range. Finer calendar validity
/// is the data source's concern.
#[derive(Clone, Copy, Debug, PartialEq, Eq, Structural)]
pub struct UtcTime {
    pub year: u16,
    pub month: u8,
    pub day: u8,
    pub hour: u8,
    pub minute: u8,
    pub second: u8,
}

impl UtcTime {
    /// Field ranges under which the instant renders as ISO-8601 text.
    pub open spec fn wf(self) -> bool {
        self.year <= 9999 && 1 <= self.month <= 12 && 1 <= self.day <= 31
            && self.hour <= 23 && self.minute <= 59 && self.second <= 59
    }
}

/// One observed transaction fee at ledger-consensus time.
///
/// Immutable once created; appended to the in-memory window and to the
/// persisted raw-points history, evicted from the window when it falls
/// outside the configured bound, never deleted from history.
#[derive(Debug)]
pub struct FeeDataPoint {
    /// Fee in the smallest network unit; non-negative by type.
    pub fee_amount: u64,
    /// UTC instant of observation.
    pub timestamp: UtcTime,
    /// Opaque identifier used for audit, not uniqueness-enforced here.
    pub transaction_hash: String,
    /// Monotonically non-decreasing source-ledger identifier.
    pub ledger_sequence: u64,
}

/// Mathematical image of a [`FeeDataPoint`]: the same fields with the
/// hash as a character sequence.
pub ghost struct PointModel {
    pub fee_amount: u64,
    pub timestamp: UtcTime,
    pub transaction_hash: Seq<char>,
    pub ledger_sequence: u64,
}

impl View for FeeDataPoint {
    type V = PointModel;

    open spec fn view(&self) -> PointModel {
        PointModel {
            fee_amount: self.fee_amount,
            timestamp: self.timestamp,
            transaction_hash: self.transaction_hash@,
            ledger_sequence: self.ledger_sequence,
        }
    }
}

/// The models of a sequence of points, elementwise.
pub open spec fn points_model(s: Seq<FeeDataPoint>) -> Seq<PointModel> {
    s.map(|_i: int, p: FeeDataPoint| p@)
}

/// One computed summary over the window at a point in time.
///
/// Fee magnitudes are exact integers in the smallest network unit
/// (fixed-point with scale zero), so no precision is lost across large
/// fee ranges. A snapshot is immutable; each engine cycle supersedes
/// the previous one rather than mutating it.
#[derive(Clone, Copy, Debug, PartialEq, Eq, Structural)]
pub struct FeeSnapshot {
    /// The configured reference fee the detector compares against.
    pub base_fee: u64,
    /// Smallest fee in the window, or 0 for an empty window.
    pub min_fee: u64,
    /// Largest fee in the window, or 0 for an empty window.
    pub max_fee: u64,
    /// Integer-truncated mean fee of the window, or 0 for an empty window.
    pub avg_fee: u64,
    /// UTC instant the snapshot was finalized.
    pub captured_at: UtcTime,
}

/// Static capability descriptor of a provider implementation.
/// Read-only; never mutated by the engine.
#[derive(Clone, Copy, Debug)]
pub struct ProviderMetadata {
    pub supports_historical: bool,
    pub max_batch_size: u32,
    pub rate_limit_per_minute: Option<u32>,
    pub data_freshness_seconds: u32,
}

} // verus!
