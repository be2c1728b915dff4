//! Blog posts as stored, and the previews shown in listings.

pub mod blog_post;
pub mod dto;

pub use self::blog_post::BlogPost;

use vstd::prelude::*;

verus! {

/// Where a post stands in its life.
#[derive(Clone, Copy, Debug, PartialEq, Eq)]
pub enum PublishState {
    Draft,
    Public,
    Unlisted,
    Archived,
}

} // verus!
