//! Verified core of a fee-market insights engine.
//!
//! The library ingests transaction-fee samples into a bounded sliding
//! window, maintains a rolling average and running extremes, classifies
//! congestion with hysteresis, and assembles immutable snapshots. All
//! aggregation, detection and record-encoding logic is verified; network
//! and database I/O live outside the library.

pub mod calculator;
pub mod codec;
pub mod config;
pub mod detector;
pub mod engine;
pub mod error;
pub mod mock_horizon;
pub mod provider;
pub mod stats;
pub mod tracker;
pub mod types;
pub mod window;

pub use config::InsightsConfig;
pub use detector::{CongestionState, Detector};
pub use engine::{EngineStatus, FeeInsightsEngine};
pub use error::AppError;
pub use mock_horizon::MockHorizonClient;
pub use provider::{FeeDataProvider, ProviderError};
pub use types::{FeeDataPoint, FeeSnapshot, ProviderMetadata, UtcTime};
