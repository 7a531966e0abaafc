//! Verified core of the OpenMinis agent framework: browser automation
//! helpers, the `minis://` URL scheme, offload argument handling, memory
//! search and context compaction.

pub mod text;
pub mod json;
pub mod time;
pub mod paths;
pub mod params;
pub mod order;
pub mod browser;
pub mod minis_url;
pub mod offload;
pub mod agent;
pub mod memory;
pub mod config;
