//! The two envelopes every answer travels in.

use vstd::prelude::*;

verus! {

/// The envelope of an answer that went well.
pub struct OkResponse<T> {
    pub status: &'static str,
    pub body: T,
}

/// The envelope of an answer that did not.
pub struct ErrResponse {
    pub status: &'static str,
    pub message: &'static str,
}

impl<T> OkResponse<T> {
    /// `body`, marked `ok`.
    #[inline]
    pub fn new(body: T) -> (r: Self)
        ensures
            r.status@ == "ok"@,
            r.body == body,
    {
        Self { status: "ok", body }
    }
}

impl ErrResponse {
    /// `message`, marked `error`.
    pub fn new(message: &'static str) -> (r: Self)
        ensures
            r.status@ == "error"@,
            r.message == message,
    {
        Self { status: "error", message }
    }
}

} // verus!
