//! Walks a paginated listing by following `rel="next"` links.
//!
//! The library holds the decisions: reading the link field of a response,
//! checking the shape of a decoded body, and choosing the next cursor. The
//! program around it performs the requests and prints the items.

mod text;

pub mod link;
pub mod error;
pub mod json;
pub mod pager;
