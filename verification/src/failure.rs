//! The kinds of failure of a registration, and the status codes.
use vstd::prelude::*;

verus! {

/// Why a registration request was not carried out.
#[derive(Clone, Copy, Debug, PartialEq, Eq, Structural)]
pub enum Failure {
    /// A field of the request is missing, unknown or given twice, or a
    /// configuration text does not parse.
    Malformed,
    /// The token is unknown, expired or used up.
    Unauthorized,
    /// The host identity already has an entry in the cluster document.
    Conflict,
    /// The remote's certificate was rejected.
    TlsError,
    /// The repository has an unexpected shape, or the file system or the
    /// version control failed.
    Internal,
}

/// Status of a request that was carried out in full.
pub const STATUS_OK: u16 = 200;

/// Status of a malformed request.
pub const STATUS_MALFORMED: u16 = 400;

/// Status of a request whose token was refused.
pub const STATUS_UNAUTHORIZED: u16 = 401;

/// Status of a request for a host that is already registered.
pub const STATUS_CONFLICT: u16 = 409;

/// Status of a request that met any other failure.
pub const STATUS_INTERNAL: u16 = 500;

/// Status of a request that failed on the remote's certificate.
pub const STATUS_TLS_ERROR: u16 = 526;

impl Failure {
    /// The status code that stands for this failure.
    pub open spec fn status(self) -> u16 {
        match self {
            Failure::Malformed => STATUS_MALFORMED,
            Failure::Unauthorized => STATUS_UNAUTHORIZED,
            Failure::Conflict => STATUS_CONFLICT,
            Failure::TlsError => STATUS_TLS_ERROR,
            Failure::Internal => STATUS_INTERNAL,
        }
    }

    /// Computes [`Failure::status`].
    pub fn status_code(self) -> (code: u16)
        ensures
            code == self.status(),
    {
        match self {
            Failure::Malformed => STATUS_MALFORMED,
            Failure::Unauthorized => STATUS_UNAUTHORIZED,
            Failure::Conflict => STATUS_CONFLICT,
            Failure::TlsError => STATUS_TLS_ERROR,
            Failure::Internal => STATUS_INTERNAL,
        }
    }
}

/// The status code of a finished request: 200 on success, else the
/// failure's own code.
pub open spec fn status_of(outcome: Result<(), Failure>) -> u16 {
    match outcome {
        Ok(_) => STATUS_OK,
        Err(failure) => failure.status(),
    }
}

/// Computes [`status_of`].
pub fn response_status(outcome: Result<(), Failure>) -> (code: u16)
    ensures
        code == status_of(outcome),
{
    match outcome {
        Ok(_) => STATUS_OK,
        Err(failure) => failure.status_code(),
    }
}

/// Only success answers 200, and each failure has a code of its own.
pub proof fn lemma_status_tells_outcome(a: Result<(), Failure>, b: Result<(), Failure>)
    ensures
        status_of(a) == STATUS_OK <==> a is Ok,
        status_of(a) == status_of(b) <==> a == b,
{
    if let Ok(u) = a {
        if let Ok(v) = b {
            assert(u == v);
        }
    }
}

} // verus!
