//! Errors of `minis://` URL resolution.
use vstd::prelude::*;
use vstd::string::StringExecFns;

verus! {

/// Why a `minis://` URL was refused.
#[derive(Debug, Clone, PartialEq, Eq)]
pub enum MinisUrlError {
    /// The text is not a `minis://` URL.
    InvalidUrl(String),
    /// The path climbs out of its namespace with `..`.
    PathTraversal,
    /// The namespace is not one of the known ones.
    NamespaceNotFound(String),
}

impl MinisUrlError {
    /// The message shown for this error.
    pub fn message(&self) -> (r: String)
        ensures
            r@ == match self {
                MinisUrlError::InvalidUrl(u) => "Invalid minis:// URL: "@ + u@,
                MinisUrlError::PathTraversal => "Path traversal detected"@,
                MinisUrlError::NamespaceNotFound(n) => "Namespace not found: "@ + n@,
            },
    {
        match self {
            MinisUrlError::InvalidUrl(u) => {
                let mut m = String::from_str("Invalid minis:// URL: ");
                m.append(u.as_str());
                m
            },
            MinisUrlError::PathTraversal => String::from_str("Path traversal detected"),
            MinisUrlError::NamespaceNotFound(n) => {
                let mut m = String::from_str("Namespace not found: ");
                m.append(n.as_str());
                m
            },
        }
    }
}

} // verus!
