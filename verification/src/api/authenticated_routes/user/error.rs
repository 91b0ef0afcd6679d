//! What the user routes answer when they fail.

use crate::types::response::ErrResponse;
use vstd::prelude::*;

verus! {

#[derive(Clone, Copy, Debug, PartialEq, Eq, Structural)]
pub enum Error {
    SearchEmpty,
    Internal,
}

impl Error {
    /// The HTTP status that answers this error.
    pub open spec fn status(self) -> u16 {
        match self {
            Error::SearchEmpty => 400,
            Error::Internal => 500,
        }
    }

    /// The words that answer this error.
    pub open spec fn message(self) -> Seq<char> {
        match self {
            Error::SearchEmpty => "Search query should not be empty"@,
            Error::Internal => "Something went wrong"@,
        }
    }

    /// The status and the envelope that answer this error.
    pub fn response(&self) -> (r: (u16, ErrResponse))
        ensures
            r.0 == self.status(),
            r.1.status@ == "error"@,
            r.1.message@ == self.message(),
    {
        match self {
            Self::SearchEmpty => (400, ErrResponse::new("Search query should not be empty")),
            Self::Internal => (500, ErrResponse::new("Something went wrong")),
        }
    }
}

} // verus!
