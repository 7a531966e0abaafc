//! Offload: Android capabilities delegated to the host app, driven by
//! command-line style arguments.

pub mod args;
pub mod result;
pub mod handlers;
