//! The query of the skill proposal listing.

use vstd::prelude::*;

verus! {

/// The status listed when a query names none.
pub fn default_status() -> (r: String)
    ensures
        r@ == "draft"@,
{
    "draft".to_string()
}

/// The query of the proposal listing: the status whose proposals are listed.
pub struct ListQuery {
    pub status: String,
}

impl ListQuery {
    /// The query for a status, or for the default status where none is given.
    pub fn from_status(status: Option<String>) -> (q: ListQuery)
        ensures
            q.status@ == match status {
                Some(s) => s@,
                None => "draft"@,
            },
    {
        match status {
            Some(s) => ListQuery { status: s },
            None => ListQuery { status: default_status() },
        }
    }
}

} // verus!
