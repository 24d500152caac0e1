//! The error values of the enrollment-token services.
//!
//! The services themselves — issuing a one-time enrollment code, or
//! redeeming one against the authority's member and token repositories —
//! are orchestrator bookkeeping around persistent storage, outside this
//! library; their error values travel through it.

use vstd::prelude::*;

verus! {

/// Why a token could not be accepted: already a member, an unknown code,
/// or a repository failure.
pub struct EnrollmentTokenAcceptorError(pub String);

/// Why a token could not be issued: the requester may not enroll others,
/// or a repository failure.
pub struct EnrollmentTokenIssuerError(pub String);

impl EnrollmentTokenAcceptorError {
    /// The human-readable reason.
    pub fn message(&self) -> (r: &str)
        ensures
            r@ == self.0@,
    {
        self.0.as_str()
    }
}

impl EnrollmentTokenIssuerError {
    /// The human-readable reason.
    pub fn message(&self) -> (r: &str)
        ensures
            r@ == self.0@,
    {
        self.0.as_str()
    }
}

} // verus!
