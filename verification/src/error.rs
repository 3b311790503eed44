use vstd::prelude::*;

verus! {

/// Errors raised by the governance library.  Each variant carries a
/// human readable message.
#[derive(Debug, Clone)]
pub enum GovernanceError {
    CryptoError(String),
    ConfigError(String),
    DatabaseError(String),
    ThresholdError(String),
    WebhookError(String),
    GitHubError(String),
    BuildError(String),
}

impl GovernanceError {
    /// The message carried by the error, whatever its kind.
    pub open spec fn message(self) -> Seq<char> {
        match self {
            GovernanceError::CryptoError(m) => m@,
            GovernanceError::ConfigError(m) => m@,
            GovernanceError::DatabaseError(m) => m@,
            GovernanceError::ThresholdError(m) => m@,
            GovernanceError::WebhookError(m) => m@,
            GovernanceError::GitHubError(m) => m@,
            GovernanceError::BuildError(m) => m@,
        }
    }
}

} // verus!
