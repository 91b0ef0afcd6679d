//! Nested message and enum types in `LoginResult`.

use super::LoginSuccess;
use vstd::prelude::*;

verus! {

#[derive(Clone, PartialEq)]
pub enum Result {
    Success(LoginSuccess),
    /// The number of a `LoginError`.
    Error(i32),
}

} // verus!
