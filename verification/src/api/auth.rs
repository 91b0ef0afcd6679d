//! Logging in and signing up.

use crate::services::user::User;
use vstd::prelude::*;

pub mod error;

use error::Error;

verus! {

/// What a handler makes of the credentials a client sent, before anything
/// else is done with them.
pub open spec fn credentials_outcome(user: &User) -> Result<(), Error> {
    if user.username@.len() == 0 || user.password@.len() == 0 {
        Err(Error::BadInput)
    } else {
        Ok(())
    }
}

/// Refuses credentials whose name or password is empty.
pub fn check_credentials(user: &User) -> (r: Result<(), Error>)
    ensures
        r == credentials_outcome(user),
{
    if user.username.as_str().is_empty() || user.password.as_str().is_empty() {
        return Err(Error::BadInput);
    }
    Ok(())
}

} // verus!
