//! What the conversation routes answer when they fail.

use crate::services::conversations::error::Error as ServiceError;
use crate::types::response::ErrResponse;
use vstd::prelude::*;
use vstd::std_specs::convert::FromSpecImpl;

verus! {

#[derive(Clone, Copy, Debug, PartialEq, Eq, Structural)]
pub enum Error {
    Internal,
    SearchEmpty,
}

impl From<ServiceError> for Error {
    fn from(value: ServiceError) -> (r: Self) {
        match value {
            ServiceError::Internal => Self::Internal,
        }
    }
}

impl FromSpecImpl<ServiceError> for Error {
    open spec fn obeys_from_spec() -> bool {
        true
    }

    open spec fn from_spec(value: ServiceError) -> Self {
        Error::Internal
    }
}

impl Error {
    /// The HTTP status that answers this error.
    pub open spec fn status(self) -> u16 {
        match self {
            Error::Internal => 500,
            Error::SearchEmpty => 400,
        }
    }

    /// The words that answer this error: the same for both.
    pub open spec fn message(self) -> Seq<char> {
        "Something went wrong! Please try again."@
    }

    /// The status and the envelope that answer this error.
    pub fn response(&self) -> (r: (u16, ErrResponse))
        ensures
            r.0 == self.status(),
            r.1.status@ == "error"@,
            r.1.message@ == self.message(),
    {
        match self {
            Self::Internal => (500, ErrResponse::new("Something went wrong! Please try again.")),
            Self::SearchEmpty => (400, ErrResponse::new("Something went wrong! Please try again.")),
        }
    }
}

} // verus!
