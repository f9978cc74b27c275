//! Fast substring and regular-expression search over a captured terminal
//! scrollback, with a memoizing result cache.

pub mod kitty;
pub mod search;
pub mod ui;

pub use kitty::client::KittyClient;
pub use search::engine::SearchEngine;
pub use search::scanner::SearchResult;
