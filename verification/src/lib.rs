//! Verified core of a small product/user CRUD backend.
//!
//! The library models the two tables (products and users) and states, for
//! every handler, exactly which status and body it answers and how the table
//! changes. The surrounding binary performs the HTTP and database I/O and
//! hands the handlers plain values.

pub mod clock;
pub mod product;
pub mod response;
pub mod text;
pub mod user;
