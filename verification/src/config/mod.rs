//! Settings: the registry of configurable fields and the built-in ones.

pub mod registry;
pub mod builtins;
