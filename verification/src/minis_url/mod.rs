//! The `minis://` URL scheme: session resources addressed by namespace,
//! resolved to files under `/var/minis/`.

pub mod error;
pub mod namespace;
pub mod resolver;
pub mod session_mount;
