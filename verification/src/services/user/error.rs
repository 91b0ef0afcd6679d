//! Why signing up or logging in came to nothing.

use vstd::prelude::*;

verus! {

#[derive(Clone, Copy, Debug, PartialEq, Eq, Structural)]
pub enum Error {
    /// The store, the hashing or the signing failed.
    InternalError,
    /// No such user, or not their password. The two are not told apart.
    UsernamePasswordError,
    /// The name is in use.
    UsernameTaken,
    /// The store did not take the new user.
    UnableToCreateUser,
}

} // verus!
