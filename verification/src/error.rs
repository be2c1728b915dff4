//! The error of a failed database operation.

use vstd::prelude::*;

use crate::routes::HttpStatus;

verus! {

/// A database operation failed; the cause is not kept.
#[derive(Clone, Copy, Debug)]
pub struct DBError;

impl DBError {
    /// How a request that failed on the database is answered: 400 Bad Request.
    pub fn status(&self) -> (s: HttpStatus)
        ensures
            s == HttpStatus::BadRequest,
    {
        HttpStatus::BadRequest
    }

    /// The text the error prints as.
    pub fn describe(&self) -> (s: String)
        ensures
            s@ == seq!['D', 'B', 'E', 'r', 'r', 'o', 'r', '.'],
    {
        proof {
            reveal_strlit("DBError.");
        }
        "DBError.".to_owned()
    }
}

} // verus!
