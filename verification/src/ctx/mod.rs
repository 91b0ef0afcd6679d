//! The context of one authenticated request.

use vstd::prelude::*;

pub mod error;

use error::Error;

verus! {

/// The identity on whose behalf a request runs.
pub struct Ctx {
    user_id: i64,
}

impl Ctx {
    /// The user this context stands for.
    pub closed spec fn spec_user_id(&self) -> i64 {
        self.user_id
    }

    /// A context for `user_id`. Every identifier gives one.
    pub fn new(user_id: i64) -> (r: Result<Self, Error>)
        ensures
            r matches Ok(ctx) && ctx.spec_user_id() == user_id,
    {
        Ok(Self { user_id })
    }

    /// The user this context stands for.
    #[verifier::when_used_as_spec(spec_user_id)]
    pub fn user_id(&self) -> (r: i64)
        ensures
            r == self.spec_user_id(),
    {
        self.user_id
    }
}

} // verus!
