//! The pluggable source of fee samples and its failure taxonomy.

use vstd::prelude::*;
use crate::types::{FeeDataPoint, ProviderMetadata};

verus! {

/// Failure taxonomy at the data-source boundary (closed set).
///
/// `RateLimitExceeded` and `ServiceUnavailable` carry no message: they
/// are structurally distinct so callers can apply backoff, or treat a
/// forced-unhealthy test double like a real outage.
#[derive(Debug)]
pub enum ProviderError {
    NetworkError { message: String },
    FormatError { message: String },
    AuthError { message: String },
    RateLimitExceeded,
    ServiceUnavailable,
}

/// Two provider errors are alike when they are the same variant with
/// the same message text.
pub open spec fn same_provider_error(a: ProviderError, b: ProviderError) -> bool {
    match (a, b) {
        (ProviderError::NetworkError { message: ma }, ProviderError::NetworkError {
            message: mb,
        }) => ma@ == mb@,
        (ProviderError::FormatError { message: ma }, ProviderError::FormatError {
            message: mb,
        }) => ma@ == mb@,
        (ProviderError::AuthError { message: ma }, ProviderError::AuthError { message: mb }) => ma@
            == mb@,
        (ProviderError::RateLimitExceeded, ProviderError::RateLimitExceeded) => true,
        (ProviderError::ServiceUnavailable, ProviderError::ServiceUnavailable) => true,
        _ => false,
    }
}

impl ProviderError {
    /// A fresh error of the same variant carrying the same message.
    pub fn duplicate(&self) -> (r: ProviderError)
        ensures
            same_provider_error(r, *self),
    {
        match self {
            ProviderError::NetworkError { message } => ProviderError::NetworkError {
                message: message.clone(),
            },
            ProviderError::FormatError { message } => ProviderError::FormatError {
                message: message.clone(),
            },
            ProviderError::AuthError { message } => ProviderError::AuthError {
                message: message.clone(),
            },
            ProviderError::RateLimitExceeded => ProviderError::RateLimitExceeded,
            ProviderError::ServiceUnavailable => ProviderError::ServiceUnavailable,
        }
    }
}

/// Abstraction over "give me recent fee samples", implemented by a live
/// ledger-API adapter (outside the library, at the I/O edge) and by the
/// configurable test double [`crate::mock_horizon::MockHorizonClient`].
///
/// `health_check` is independent of `fetch_latest_fees`: a provider may
/// be reachable for health purposes yet fail a given fetch, and vice
/// versa; the two signals are never conflated.
pub trait FeeDataProvider {
    /// Zero or more newly observed samples since the last successful
    /// fetch, in provider-defined order, or a typed failure.
    fn fetch_latest_fees(&mut self) -> Result<Vec<FeeDataPoint>, ProviderError>;

    /// Stable identifier for logging and telemetry.
    fn provider_name(&self) -> &'static str;

    /// Reachability signal, independent of fetch outcomes.
    fn health_check(&self) -> Result<(), ProviderError>;

    /// Static, side-effect-free capability descriptor.
    fn get_metadata(&self) -> ProviderMetadata;
}

} // verus!
