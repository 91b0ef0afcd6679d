//! What logging in and signing up answer when they fail.

use crate::services::user::error::Error as ServiceError;
use crate::types::response::ErrResponse;
use vstd::prelude::*;
use vstd::std_specs::convert::FromSpecImpl;

verus! {

#[derive(Clone, Copy, Debug, PartialEq, Eq, Structural)]
pub enum Error {
    PasswordIncorrect,
    SignUpUsernameTaken,
    Internal,
    BadInput,
}

impl From<ServiceError> for Error {
    fn from(value: ServiceError) -> (r: Self) {
        match value {
            ServiceError::UsernamePasswordError => Self::PasswordIncorrect,
            ServiceError::InternalError | ServiceError::UnableToCreateUser => Self::Internal,
            ServiceError::UsernameTaken => Self::SignUpUsernameTaken,
        }
    }
}

impl FromSpecImpl<ServiceError> for Error {
    open spec fn obeys_from_spec() -> bool {
        true
    }

    /// What the service failed with, as the client is to hear of it. What
    /// went wrong inside the server is not told apart.
    open spec fn from_spec(value: ServiceError) -> Self {
        match value {
            ServiceError::UsernamePasswordError => Error::PasswordIncorrect,
            ServiceError::InternalError | ServiceError::UnableToCreateUser => Error::Internal,
            ServiceError::UsernameTaken => Error::SignUpUsernameTaken,
        }
    }
}

impl Error {
    /// The HTTP status that answers this error.
    pub open spec fn status(self) -> u16 {
        match self {
            Error::PasswordIncorrect => 401,
            Error::Internal => 500,
            Error::SignUpUsernameTaken => 409,
            Error::BadInput => 400,
        }
    }

    /// The words that answer this error.
    pub open spec fn message(self) -> Seq<char> {
        match self {
            Error::PasswordIncorrect => "Incorrect credentials. Please try again."@,
            Error::Internal => "There was an issue processing your request. Please try again later."@,
            Error::SignUpUsernameTaken => "This username is already taken."@,
            Error::BadInput => "Username / Password should not be empty."@,
        }
    }

    /// The status and the envelope that answer this error.
    pub fn response(&self) -> (r: (u16, ErrResponse))
        ensures
            r.0 == self.status(),
            r.1.status@ == "error"@,
            r.1.message@ == self.message(),
    {
        match self {
            Self::PasswordIncorrect => (
                401,
                ErrResponse::new("Incorrect credentials. Please try again."),
            ),
            Self::Internal => (
                500,
                ErrResponse::new(
                    "There was an issue processing your request. Please try again later.",
                ),
            ),
            Self::SignUpUsernameTaken => (409, ErrResponse::new("This username is already taken.")),
            Self::BadInput => (400, ErrResponse::new("Username / Password should not be empty.")),
        }
    }
}

} // verus!
