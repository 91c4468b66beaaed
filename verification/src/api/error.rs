//! How a request can fail.

use vstd::prelude::*;

verus! {

/// Why a request was not carried out.
#[derive(Debug, Clone, Copy, PartialEq, Eq, Structural)]
pub enum ApiError {
    /// The request could not be read: an identifier that is no number, an
    /// upload target without its separator.
    BadRequest,
    /// No project carries the identifier.
    NotFound,
    /// The project has no attached file.
    NoAttachment,
    /// The request lacks the capability it needs.
    Forbidden,
    /// A directory or a file could not be written.
    Storage,
    /// The store has no identifier left to give.
    IdSpaceExhausted,
}

impl ApiError {
    /// The status code that answers the request.
    pub open spec fn status_of(self) -> u16 {
        match self {
            ApiError::BadRequest => 400,
            ApiError::NotFound => 404,
            ApiError::NoAttachment => 404,
            ApiError::Forbidden => 403,
            ApiError::Storage => 500,
            ApiError::IdSpaceExhausted => 500,
        }
    }

    /// The status code that answers the request: 400 for a request that
    /// could not be read, 404 for what is not there, 403 for what is not
    /// allowed, 500 for what the server could not do.
    pub fn status(self) -> (code: u16)
        ensures
            code == self.status_of(),
    {
        match self {
            ApiError::BadRequest => 400,
            ApiError::NotFound => 404,
            ApiError::NoAttachment => 404,
            ApiError::Forbidden => 403,
            ApiError::Storage => 500,
            ApiError::IdSpaceExhausted => 500,
        }
    }
}

} // verus!
