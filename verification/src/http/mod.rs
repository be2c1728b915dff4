//! Request bodies of the blog's HTTP interface.

pub mod dto;
