//! Application-level failure taxonomy.
//!
//! Wraps failures that cross into the serving layer so that callers can
//! branch on the failure class: configuration, upstream network,
//! malformed data, or unclassified.

use vstd::prelude::*;
use vstd::string::StringExecFns;

verus! {

/// Unified application error.
///
/// Every layer (configuration, network, parsing) fails through one of
/// these variants, each carrying a human-readable message.
#[derive(Debug)]
pub enum AppError {
    Config(String),
    Network(String),
    Parse(String),
    Unknown(String),
}

impl AppError {
    /// The rendered message: a class prefix followed by the carried text.
    pub open spec fn spec_message(self) -> Seq<char> {
        match self {
            AppError::Config(m) => "Config error: "@ + m@,
            AppError::Network(m) => "Network error: "@ + m@,
            AppError::Parse(m) => "Parse error: "@ + m@,
            AppError::Unknown(m) => "Unknown error: "@ + m@,
        }
    }

    /// The HTTP status class the serving layer reports for this error:
    /// configuration and unclassified failures are server faults (500),
    /// upstream failures map to bad gateway (502), and malformed data
    /// to unprocessable entity (422).
    pub open spec fn spec_status_code(self) -> u16 {
        match self {
            AppError::Config(_) => 500,
            AppError::Network(_) => 502,
            AppError::Parse(_) => 422,
            AppError::Unknown(_) => 500,
        }
    }

    /// Render the error as its prefixed message.
    pub fn message(&self) -> (r: String)
        ensures
            r@ == self.spec_message(),
    {
        match self {
            AppError::Config(m) => String::from_str("Config error: ").concat(m.as_str()),
            AppError::Network(m) => String::from_str("Network error: ").concat(m.as_str()),
            AppError::Parse(m) => String::from_str("Parse error: ").concat(m.as_str()),
            AppError::Unknown(m) => String::from_str("Unknown error: ").concat(m.as_str()),
        }
    }

    /// The numeric HTTP status code for this error class.
    pub fn status_code(&self) -> (r: u16)
        ensures
            r == self.spec_status_code(),
    {
        match self {
            AppError::Config(_) => 500,
            AppError::Network(_) => 502,
            AppError::Parse(_) => 422,
            AppError::Unknown(_) => 500,
        }
    }
}

} // verus!
