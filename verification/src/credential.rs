//! The error codes with which the issuance of a credential is refused.

use vstd::prelude::*;

verus! {

/// The error codes of a credential error response, and those of a bearer token error.
#[derive(Debug, Clone, Copy, PartialEq, Eq, Structural)]
pub enum CredentialErrorCode {
    InvalidCredentialRequest,
    UnsupportedCredentialType,
    UnsupportedCredentialFormat,
    InvalidProof,
    InvalidEncryptionParameters,
    InvalidRequest,
    InvalidToken,
    InsufficientScope,
    /// An error on the side of the server; it is sent with a status of the 5xx class.
    ServerError,
}

impl CredentialErrorCode {
    /// The HTTP status of a response that carries the code.
    pub open spec fn status_code_spec(&self) -> u16 {
        match self {
            CredentialErrorCode::ServerError => 500,
            CredentialErrorCode::InvalidToken => 401,
            CredentialErrorCode::InsufficientScope => 403,
            _ => 400,
        }
    }

    /// The HTTP status of a response that carries the code: 500 for an error of the server,
    /// 401 for an invalid token, 403 for an insufficient scope, 400 for all others.
    pub fn status_code(&self) -> (status: u16)
        ensures
            status == self.status_code_spec(),
            400 <= status <= 500,
    {
        match self {
            CredentialErrorCode::InvalidCredentialRequest
            | CredentialErrorCode::UnsupportedCredentialType
            | CredentialErrorCode::UnsupportedCredentialFormat
            | CredentialErrorCode::InvalidProof
            | CredentialErrorCode::InvalidEncryptionParameters
            | CredentialErrorCode::InvalidRequest => 400,
            CredentialErrorCode::ServerError => 500,
            CredentialErrorCode::InvalidToken => 401,
            CredentialErrorCode::InsufficientScope => 403,
        }
    }
}

} // verus!
