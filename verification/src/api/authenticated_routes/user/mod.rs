//! Finding other users.

use vstd::prelude::*;

pub mod error;

use error::Error;

verus! {

/// What the search makes of a query, before the store is asked.
pub open spec fn query_outcome(q: Seq<char>) -> Result<(), Error> {
    if q.len() == 0 {
        Err(Error::SearchEmpty)
    } else {
        Ok(())
    }
}

/// Refuses an empty query.
pub fn check_query(q: &str) -> (r: Result<(), Error>)
    ensures
        r == query_outcome(q@),
{
    if q.is_empty() {
        return Err(Error::SearchEmpty);
    }
    Ok(())
}

} // verus!
