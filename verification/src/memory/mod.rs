//! Memory: daily Markdown logs and keyword search over them.

pub mod store;
pub mod search;
