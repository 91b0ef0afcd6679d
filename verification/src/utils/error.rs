//! Errors of the helpers.

use vstd::prelude::*;

verus! {

#[derive(Debug)]
pub enum Error {
    DateFailParse(String),
    FailToB64uDecode,
}

} // verus!
