use vstd::prelude::*;

verus! {

/// The error taxonomy of the service, in the order the handlers check it.
#[derive(Clone, Copy, PartialEq, Eq, Structural, Debug)]
pub enum Error {
    /// Malformed request: no targets, or a target that is not a well-formed
    /// absolute URL.
    ValidationError,
    /// A destination URL matched the blacklist; the rejection is terminal.
    AbuseRejected,
    /// Unknown short code, a link that may not be resolved yet, or an empty
    /// destination set.
    NotFound,
    /// The link is marked fraudulent; resolution serves an explanation
    /// instead of a redirect.
    FraudBlocked,
    /// The payment gateway or the store failed; details stay server-side.
    UpstreamFailure,
}

impl Error {
    /// The HTTP status each error surfaces as.
    pub open spec fn spec_status_code(self) -> u16 {
        match self {
            Error::ValidationError => 400,
            Error::AbuseRejected => 403,
            Error::NotFound => 404,
            Error::FraudBlocked => 451,
            Error::UpstreamFailure => 500,
        }
    }

    /// Maps the error to the HTTP status code it is served with.
    pub fn status_code(&self) -> (r: u16)
        ensures
            r == self.spec_status_code(),
    {
        match self {
            Error::ValidationError => 400,
            Error::AbuseRejected => 403,
            Error::NotFound => 404,
            Error::FraudBlocked => 451,
            Error::UpstreamFailure => 500,
        }
    }
}

} // verus!
