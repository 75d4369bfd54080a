//! The client's typed failures, one per step that can fail.
use vstd::prelude::*;

verus! {

/// Why a step of the client failed.
#[derive(Clone, Copy, Debug, PartialEq, Eq, Structural)]
pub enum ClientError {
    /// The target's base URL does not parse.
    InvalidTargetUrl,
    /// The published configuration set is malformed.
    ConfigDecodeFailed,
    /// The configuration set holds no entry that this client supports.
    NoCompatibleConfig,
    /// The domain name or the record type cannot form a DNS query.
    InvalidQuery,
    /// Encapsulation or encryption of the query failed.
    EncryptionFailed,
    /// The target URL has no host to name to a relay.
    MissingTargetHost,
    /// The relay or the target answered with a status other than 200.
    HttpStatus(u16),
    /// The response envelope is malformed.
    ResponseDecodeFailed,
    /// The response does not open under the pending query's secret.
    AuthenticationFailed,
    /// No query is pending, so there is nothing to open a response against.
    InvalidSessionState,
}

impl ClientError {
    /// A short description of the failure.
    pub fn message(&self) -> (r: &'static str) {
        match self {
            ClientError::InvalidTargetUrl => "invalid target URL",
            ClientError::ConfigDecodeFailed => "invalid configs",
            ClientError::NoCompatibleConfig => "no available config",
            ClientError::InvalidQuery => "invalid domain name or query type",
            ClientError::EncryptionFailed => "failed to encrypt query",
            ClientError::MissingTargetHost => "Target host is not a valid host string",
            ClientError::HttpStatus(_) => "query failed with a response status other than 200",
            ClientError::ResponseDecodeFailed => "failed to parse response body",
            ClientError::AuthenticationFailed => "failed to decrypt response",
            ClientError::InvalidSessionState => "no query is pending",
        }
    }
}

} // verus!
