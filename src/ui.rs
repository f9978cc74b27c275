//! The interactive side of the search: editing the query.

pub mod input;
pub mod session;
