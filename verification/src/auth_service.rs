//! The messages of the login service, as its protocol file names them.

use crate::utils::text::same_text;
use vstd::prelude::*;

pub mod login_result;

verus! {

/// What a client sends to log in.
#[derive(Clone, PartialEq)]
pub struct LoginPayload {
    pub username: String,
    pub pwd: String,
}

/// What a client gets when it is logged in.
#[derive(Clone, PartialEq)]
pub struct LoginSuccess {
    pub token: String,
}

/// The one answer to a login: a success or an error's number.
#[derive(Clone, PartialEq)]
pub struct LoginResult {
    pub result: Option<login_result::Result>,
}

/// Why a login was refused.
#[derive(Clone, Copy, Debug, PartialEq, Eq, Structural, Hash, PartialOrd, Ord)]
pub enum LoginError {
    InvalidCredentials,
    AccountNotFound,
    AccountDisabled,
}

impl LoginError {
    /// The name of this error in the protocol file.
    pub open spec fn name(self) -> Seq<char> {
        match self {
            LoginError::InvalidCredentials => "INVALID_CREDENTIALS"@,
            LoginError::AccountNotFound => "ACCOUNT_NOT_FOUND"@,
            LoginError::AccountDisabled => "ACCOUNT_DISABLED"@,
        }
    }

    /// The number of this error on the wire.
    pub open spec fn number(self) -> i32 {
        match self {
            LoginError::InvalidCredentials => 0,
            LoginError::AccountNotFound => 1,
            LoginError::AccountDisabled => 2,
        }
    }

    /// The error that `value` names, if it names one.
    pub open spec fn named(value: Seq<char>) -> Option<LoginError> {
        if value == "INVALID_CREDENTIALS"@ {
            Some(LoginError::InvalidCredentials)
        } else if value == "ACCOUNT_NOT_FOUND"@ {
            Some(LoginError::AccountNotFound)
        } else if value == "ACCOUNT_DISABLED"@ {
            Some(LoginError::AccountDisabled)
        } else {
            None
        }
    }

    /// String value of the enum field names used in the ProtoBuf definition.
    ///
    /// The values are not transformed in any way and thus are considered stable
    /// (if the ProtoBuf definition does not change) and safe for programmatic use.
    pub fn as_str_name(&self) -> (r: &'static str)
        ensures
            r@ == self.name(),
    {
        match self {
            LoginError::InvalidCredentials => "INVALID_CREDENTIALS",
            LoginError::AccountNotFound => "ACCOUNT_NOT_FOUND",
            LoginError::AccountDisabled => "ACCOUNT_DISABLED",
        }
    }

    /// Creates an enum from field names used in the ProtoBuf definition.
    pub fn from_str_name(value: &str) -> (r: Option<Self>)
        ensures
            r == Self::named(value@),
    {
        if same_text(value, "INVALID_CREDENTIALS") {
            Some(Self::InvalidCredentials)
        } else if same_text(value, "ACCOUNT_NOT_FOUND") {
            Some(Self::AccountNotFound)
        } else if same_text(value, "ACCOUNT_DISABLED") {
            Some(Self::AccountDisabled)
        } else {
            None
        }
    }

    /// The number of this error on the wire.
    pub fn as_number(&self) -> (r: i32)
        ensures
            r == self.number(),
    {
        match self {
            LoginError::InvalidCredentials => 0,
            LoginError::AccountNotFound => 1,
            LoginError::AccountDisabled => 2,
        }
    }

    /// The error with this number on the wire, if there is one.
    pub fn from_number(value: i32) -> (r: Option<Self>)
        ensures
            match r {
                Some(e) => e.number() == value,
                None => forall|e: LoginError| e.number() != value,
            },
    {
        if value == 0 {
            Some(Self::InvalidCredentials)
        } else if value == 1 {
            Some(Self::AccountNotFound)
        } else if value == 2 {
            Some(Self::AccountDisabled)
        } else {
            None
        }
    }

    /// Every error is the one its name names.
    pub proof fn law_name_round_trip(self)
        ensures
            Self::named(self.name()) == Some(self),
    {
        reveal_strlit("INVALID_CREDENTIALS");
        reveal_strlit("ACCOUNT_NOT_FOUND");
        reveal_strlit("ACCOUNT_DISABLED");
        assert("INVALID_CREDENTIALS"@.len() == 19);
        assert("ACCOUNT_NOT_FOUND"@.len() == 17);
        assert("ACCOUNT_DISABLED"@.len() == 16);
    }
}

} // verus!
