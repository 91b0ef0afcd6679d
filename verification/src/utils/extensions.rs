//! What the guard attaches to a request it lets through.

use vstd::prelude::*;

verus! {

/// The user a request was authenticated as. It lives as long as the request
/// does.
#[derive(Clone, Copy, Debug, PartialEq, Eq, Structural)]
pub struct UserId(pub i64);

} // verus!
