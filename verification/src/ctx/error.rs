//! What can go wrong when a request context is made.

use vstd::prelude::*;

verus! {

#[derive(Debug)]
pub enum Error {
    CtxCannotNewRootCtx,
}

impl Error {
    /// The variant's name, as text for logs.
    pub fn message(&self) -> (r: String)
        ensures
            r@ == "CtxCannotNewRootCtx"@,
    {
        "CtxCannotNewRootCtx".to_owned()
    }
}

} // verus!
