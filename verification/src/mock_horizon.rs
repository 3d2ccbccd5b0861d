//! Configurable test double for the fee-data provider.
//!
//! Returns a caller-supplied sequence of points or a fixed error
//! (mutually exclusive: a configured error suppresses the configured
//! points), counts every fetch call regardless of outcome, and carries
//! an independently configurable healthy flag for `health_check`.

use vstd::prelude::*;
use crate::provider::{FeeDataProvider, ProviderError, same_provider_error};
use crate::types::{FeeDataPoint, PointModel, ProviderMetadata, points_model};

verus! {

/// A configurable stand-in implementation of [`FeeDataProvider`].
pub struct MockHorizonClient {
    /// Pre-configured fee data points to return on `fetch_latest_fees`.
    responses: Vec<FeeDataPoint>,
    /// When `Some`, `fetch_latest_fees` returns this error instead of
    /// `responses`.
    error: Option<ProviderError>,
    /// Total number of `fetch_latest_fees` calls, saturating at the
    /// machine bound.
    call_count: usize,
    /// Whether `health_check` succeeds or returns `ServiceUnavailable`.
    healthy: bool,
}

impl MockHorizonClient {
    /// The models of the configured response points.
    pub closed spec fn spec_responses(self) -> Seq<PointModel> {
        points_model(self.responses@)
    }

    /// The configured fetch error, if any.
    pub closed spec fn spec_error(self) -> Option<ProviderError> {
        self.error
    }

    /// How many times `fetch_latest_fees` has been called.
    pub closed spec fn spec_calls(self) -> usize {
        self.call_count
    }

    /// The configured health flag.
    pub closed spec fn spec_healthy(self) -> bool {
        self.healthy
    }

    /// Create a new mock with no responses, no error, a zero call
    /// counter, and a healthy status.
    pub fn new() -> (r: Self)
        ensures
            r.spec_responses() == Seq::<PointModel>::empty(),
            r.spec_error() is None,
            r.spec_calls() == 0,
            r.spec_healthy(),
    {
        let r = MockHorizonClient {
            responses: Vec::new(),
            error: None,
            call_count: 0,
            healthy: true,
        };
        proof {
            assert(points_model(r.responses@) =~= Seq::<PointModel>::empty());
        }
        r
    }

    /// Set the fee data points returned by `fetch_latest_fees`.
    pub fn with_fees(self, fees: Vec<FeeDataPoint>) -> (r: Self)
        ensures
            r.spec_responses() == points_model(fees@),
            r.spec_error() == self.spec_error(),
            r.spec_calls() == self.spec_calls(),
            r.spec_healthy() == self.spec_healthy(),
    {
        MockHorizonClient { responses: fees, ..self }
    }

    /// Set the error returned by `fetch_latest_fees` (overrides
    /// `with_fees`).
    pub fn with_error(self, error: ProviderError) -> (r: Self)
        ensures
            r.spec_error() == Some(error),
            r.spec_responses() == self.spec_responses(),
            r.spec_calls() == self.spec_calls(),
            r.spec_healthy() == self.spec_healthy(),
    {
        MockHorizonClient { error: Some(error), ..self }
    }

    /// Control whether `health_check` succeeds (`true`) or fails
    /// (`false`).
    pub fn with_healthy(self, healthy: bool) -> (r: Self)
        ensures
            r.spec_healthy() == healthy,
            r.spec_responses() == self.spec_responses(),
            r.spec_error() == self.spec_error(),
            r.spec_calls() == self.spec_calls(),
    {
        MockHorizonClient { healthy, ..self }
    }

    /// The current call count, without consuming the mock.
    pub fn calls(&self) -> (r: usize)
        ensures
            r == self.spec_calls(),
    {
        self.call_count
    }
}

impl Default for MockHorizonClient {
    /// Same as [`MockHorizonClient::new`].
    fn default() -> (r: Self)
        ensures
            r.spec_responses() == Seq::<PointModel>::empty(),
            r.spec_error() is None,
            r.spec_calls() == 0,
            r.spec_healthy(),
    {
        Self::new()
    }
}

impl FeeDataProvider for MockHorizonClient {
    /// Counts the call, then returns a fresh error equal to the
    /// configured one, or fresh copies of the configured points.
    fn fetch_latest_fees(&mut self) -> (r: Result<Vec<FeeDataPoint>, ProviderError>)
        ensures
            final(self).spec_calls() == if old(self).spec_calls() < usize::MAX {
                old(self).spec_calls() + 1
            } else {
                old(self).spec_calls() as int
            },
            final(self).spec_responses() == old(self).spec_responses(),
            final(self).spec_error() == old(self).spec_error(),
            final(self).spec_healthy() == old(self).spec_healthy(),
            match old(self).spec_error() {
                Some(e) => r matches Err(got) && same_provider_error(got, e),
                None => r matches Ok(v) && points_model(v@) == old(self).spec_responses(),
            },
    {
        if self.call_count < usize::MAX {
            self.call_count = self.call_count + 1;
        }
        if let Some(err) = &self.error {
            return Err(err.duplicate());
        }
        let mut out: Vec<FeeDataPoint> = Vec::new();
        let mut i: usize = 0;
        while i < self.responses.len()
            invariant
                i <= self.responses.len(),
                out@.len() == i,
                forall|j: int| 0 <= j < i ==> out@[j]@ == self.responses@[j]@,
            decreases self.responses.len() - i,
        {
            let p = &self.responses[i];
            out.push(
                FeeDataPoint {
                    fee_amount: p.fee_amount,
                    timestamp: p.timestamp,
                    transaction_hash: p.transaction_hash.clone(),
                    ledger_sequence: p.ledger_sequence,
                },
            );
            i = i + 1;
        }
        proof {
            assert(points_model(out@) =~= points_model(self.responses@));
        }
        Ok(out)
    }

    fn provider_name(&self) -> (r: &'static str)
        ensures
            r@ == "MockHorizon"@,
    {
        "MockHorizon"
    }

    /// Succeeds exactly when the configured health flag is set; the
    /// configured fetch error plays no part.
    fn health_check(&self) -> (r: Result<(), ProviderError>)
        ensures
            self.spec_healthy() ==> r matches Ok(()),
            !self.spec_healthy() ==> (r matches Err(e) && e is ServiceUnavailable),
    {
        if self.healthy {
            Ok(())
        } else {
            Err(ProviderError::ServiceUnavailable)
        }
    }

    /// Fixed metadata: no historical backfill, batches of at most 100,
    /// no declared rate limit, five-second freshness.
    fn get_metadata(&self) -> (r: ProviderMetadata)
        ensures
            !r.supports_historical,
            r.max_batch_size == 100,
            r.rate_limit_per_minute is None,
            r.data_freshness_seconds == 5,
    {
        ProviderMetadata {
            supports_historical: false,
            max_batch_size: 100,
            rate_limit_per_minute: None,
            data_freshness_seconds: 5,
        }
    }
}

} // verus!
