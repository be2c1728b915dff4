//! Verified core of a small Markdown blog: post previews, dates, pagination
//! and request parsing. The web server, the database and the external
//! Markdown converter stay outside.

pub mod cms;
pub mod datetime;
pub mod error;
pub mod htmlify;
pub mod http;
pub mod models;
pub mod routes;
pub mod text;
