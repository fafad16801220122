use vstd::prelude::*;

use crate::error::{ErrorModel, HyperError};

verus! {

/// Reads what a submit call handed back. A negative id means that the call
/// failed at once and allocated no id: its caller gets the error built from
/// the status written into the slot and the handle's last error text.
/// Otherwise the request is in flight under the returned id.
pub fn check_submission(req_id: i64, status: u32, message: String, location: String) -> (r: Result<i64, HyperError>)
    ensures
        req_id >= 0 ==> r == Ok::<i64, HyperError>(req_id),
        req_id < 0 ==> (r matches Err(e) && e@ == (ErrorModel { status, message: message@, location: location@ })),
{
    if req_id < 0 {
        Err(HyperError::new(status, message, location))
    } else {
        Ok(req_id)
    }
}

} // verus!
