//! Arguments that clients send, and the preview form of a post.

use vstd::prelude::*;

verus! {

/// Arguments for creating a post.
pub struct CreatePostArgs {
    pub markdown: Option<String>,
    pub is_public: Option<bool>,
    pub title: String,
}

/// Arguments for updating a post; absent fields stay as they are.
pub struct UpdatePostArgs {
    pub markdown: Option<String>,
    pub is_public: Option<bool>,
    pub title: Option<String>,
}

/// A sign-up form.
pub struct SignupArgs {
    pub email: String,
    pub password: String,
    pub password_conf: String,
}

/// A post as shown in a listing, named by its UUID.
pub struct BlogPostPreview {
    pub uuid_repr: String,
    pub title: String,
    pub date_repr: String,
    pub preview: String,
}

} // verus!
