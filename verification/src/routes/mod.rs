//! The decisions behind the web routes: which page to show, which post a
//! path names, which payment intent a client secret belongs to.

pub mod blog;
pub mod tipjar;

use vstd::prelude::*;

verus! {

/// The error statuses the routes answer with.
#[derive(Clone, Copy, Debug, PartialEq, Eq)]
pub enum HttpStatus {
    /// 400
    BadRequest,
    /// 404
    NotFound,
}

impl HttpStatus {
    /// The HTTP status code.
    pub fn code(&self) -> (c: u16)
        ensures
            *self == HttpStatus::BadRequest ==> c == 400,
            *self == HttpStatus::NotFound ==> c == 404,
    {
        match self {
            HttpStatus::BadRequest => 400,
            HttpStatus::NotFound => 404,
        }
    }
}

/// One page of a paginated listing.
pub struct PaginatorPage<T> {
    pub index: i64,
    pub has_next: bool,
    pub next_index: i64,
    pub has_prev: bool,
    pub prev_index: i64,
    pub total_pages: i64,
    pub objects: Vec<T>,
}

} // verus!
