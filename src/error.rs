//! The errors that a chain or the registry reports.

use vstd::prelude::*;

verus! {

/// What went wrong with a request, a subscription or the configuration.
#[derive(Clone, Debug, PartialEq, Eq)]
pub enum RpcError {
    /// The request's parameters were malformed or missing.
    InvalidParams(String),
    /// The upstream call or subscription failed.
    UpstreamFailure(String),
    /// The chain-state query failed during injection.
    ResolutionFailure(String),
    /// The chain reached its end without a forwarding stage, or the
    /// configuration is invalid.
    BadConfiguration,
}

impl RpcError {
    /// The text that a client sees.
    pub fn message(&self) -> (r: String)
        ensures
            r@ == match self {
                RpcError::InvalidParams(m) => m@,
                RpcError::UpstreamFailure(m) => m@,
                RpcError::ResolutionFailure(m) => m@,
                RpcError::BadConfiguration => "Bad configuration"@,
            },
    {
        match self {
            RpcError::InvalidParams(m) => m.clone(),
            RpcError::UpstreamFailure(m) => m.clone(),
            RpcError::ResolutionFailure(m) => m.clone(),
            RpcError::BadConfiguration => "Bad configuration".to_owned(),
        }
    }
}

} // verus!
