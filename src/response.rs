use vstd::prelude::*;

use crate::format::ReadError;
use crate::percentile::PercentileError;
use crate::upload::UploadError;

verus! {

/// Any error a request can end with.
#[derive(Debug, PartialEq, Eq)]
pub enum ServiceError {
    Percentile(PercentileError),
    Read(ReadError),
    Upload(UploadError),
}

impl ServiceError {
    /// Text shown to a user for this error.
    pub open spec fn text(self) -> Seq<char> {
        match self {
            ServiceError::Percentile(e) => e.text(),
            ServiceError::Read(e) => e.text(),
            ServiceError::Upload(e) => e.text(),
        }
    }

    /// Text shown to a user for this error.
    pub fn message(&self) -> (r: String)
        ensures
            r@ == self.text(),
    {
        match self {
            ServiceError::Percentile(e) => e.message(),
            ServiceError::Read(e) => e.message(),
            ServiceError::Upload(e) => e.message(),
        }
    }
}

/// Body of a refused request: `{"error": <message>}`.
#[derive(Debug)]
pub struct ErrorResponse {
    /// What went wrong, for the user.
    pub error: String,
}

impl ErrorResponse {
    /// The response that reports `e`.
    pub fn from_error(e: &ServiceError) -> (r: ErrorResponse)
        ensures
            r.error@ == e.text(),
    {
        ErrorResponse { error: e.message() }
    }
}

} // verus!
