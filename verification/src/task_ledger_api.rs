//! Checks made on task-ledger requests before an operation is applied.

use vstd::prelude::*;
use crate::api_error::ApiError;
use crate::text::{trim, trim_str};

verus! {

/// Whether `value` holds anything but white space.
pub fn non_empty(value: &str) -> (r: bool)
    ensures
        r == (trim(value@).len() > 0),
{
    let t = trim_str(value);
    t.as_str().unicode_len() > 0
}

/// The message answered to a checkpoint whose claim is blank.
pub open spec fn empty_claim_message() -> Seq<char> {
    "checkpoint claim must not be empty"@
}

/// Accepts a checkpoint claim that holds more than white space, and refuses
/// a blank one as a bad request.
pub fn check_checkpoint_claim(claim: &str) -> (r: Result<(), ApiError>)
    ensures
        r is Ok <==> trim(claim@).len() > 0,
        r matches Err(e) ==> e.is_bad_request(empty_claim_message()),
{
    if non_empty(claim) {
        Ok(())
    } else {
        Err(ApiError::BadRequest("checkpoint claim must not be empty".to_string()))
    }
}

} // verus!
