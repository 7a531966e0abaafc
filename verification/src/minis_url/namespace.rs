//! The namespaces of the `minis://` scheme.
use vstd::prelude::*;
use crate::text::{chars_eq, chars_of};

verus! {

broadcast use vstd::string::group_string_axioms;

/// A `minis://` namespace; each maps to a directory under `/var/minis/`.
#[derive(Debug, Clone, Copy, PartialEq, Eq, Hash, Structural)]
pub enum Namespace {
    Attachments,
    Workspace,
    Offloads,
    Browser,
    Shared,
    Memory,
    Mounts,
}

/// The name of a namespace in URLs.
pub open spec fn namespace_name(n: Namespace) -> Seq<char> {
    match n {
        Namespace::Attachments => "attachments"@,
        Namespace::Workspace => "workspace"@,
        Namespace::Offloads => "offloads"@,
        Namespace::Browser => "browser"@,
        Namespace::Shared => "shared"@,
        Namespace::Memory => "memory"@,
        Namespace::Mounts => "mounts"@,
    }
}

/// The namespace named `s`, if any.
pub open spec fn namespace_from_name(s: Seq<char>) -> Option<Namespace> {
    if s == "attachments"@ {
        Some(Namespace::Attachments)
    } else if s == "workspace"@ {
        Some(Namespace::Workspace)
    } else if s == "offloads"@ {
        Some(Namespace::Offloads)
    } else if s == "browser"@ {
        Some(Namespace::Browser)
    } else if s == "shared"@ {
        Some(Namespace::Shared)
    } else if s == "memory"@ {
        Some(Namespace::Memory)
    } else if s == "mounts"@ {
        Some(Namespace::Mounts)
    } else {
        None
    }
}

/// The Linux directory of a namespace.
pub open spec fn namespace_dir(n: Namespace) -> Seq<char> {
    match n {
        Namespace::Attachments => "/var/minis/attachments"@,
        Namespace::Workspace => "/var/minis/workspace"@,
        Namespace::Offloads => "/var/minis/offloads"@,
        Namespace::Browser => "/var/minis/browser"@,
        Namespace::Shared => "/var/minis/shared"@,
        Namespace::Memory => "/var/minis/memory"@,
        Namespace::Mounts => "/var/minis/mounts"@,
    }
}

impl Namespace {
    /// The namespace named `s`, if any.
    pub fn from_str(s: &str) -> (r: Option<Self>)
        ensures
            r == namespace_from_name(s@),
    {
        let v = chars_of(s);
        if chars_eq(&v, &chars_of("attachments")) {
            Some(Self::Attachments)
        } else if chars_eq(&v, &chars_of("workspace")) {
            Some(Self::Workspace)
        } else if chars_eq(&v, &chars_of("offloads")) {
            Some(Self::Offloads)
        } else if chars_eq(&v, &chars_of("browser")) {
            Some(Self::Browser)
        } else if chars_eq(&v, &chars_of("shared")) {
            Some(Self::Shared)
        } else if chars_eq(&v, &chars_of("memory")) {
            Some(Self::Memory)
        } else if chars_eq(&v, &chars_of("mounts")) {
            Some(Self::Mounts)
        } else {
            None
        }
    }

    /// The name of this namespace in URLs.
    pub fn as_str(&self) -> (r: &'static str)
        ensures
            r@ == namespace_name(*self),
    {
        match self {
            Self::Attachments => "attachments",
            Self::Workspace => "workspace",
            Self::Offloads => "offloads",
            Self::Browser => "browser",
            Self::Shared => "shared",
            Self::Memory => "memory",
            Self::Mounts => "mounts",
        }
    }

    /// The Linux directory of this namespace.
    pub fn linux_prefix(&self) -> (r: &'static str)
        ensures
            r@ == namespace_dir(*self),
    {
        match self {
            Self::Attachments => "/var/minis/attachments",
            Self::Workspace => "/var/minis/workspace",
            Self::Offloads => "/var/minis/offloads",
            Self::Browser => "/var/minis/browser",
            Self::Shared => "/var/minis/shared",
            Self::Memory => "/var/minis/memory",
            Self::Mounts => "/var/minis/mounts",
        }
    }
}

/// A namespace's directory is `/var/minis/` followed by its name.
pub proof fn lemma_namespace_dir(n: Namespace)
    ensures
        namespace_dir(n) == "/var/minis/"@ + namespace_name(n),
{
    reveal_strlit("/var/minis/");
    match n {
        Namespace::Attachments => {
            reveal_strlit("attachments");
            reveal_strlit("/var/minis/attachments");
        },
        Namespace::Workspace => {
            reveal_strlit("workspace");
            reveal_strlit("/var/minis/workspace");
        },
        Namespace::Offloads => {
            reveal_strlit("offloads");
            reveal_strlit("/var/minis/offloads");
        },
        Namespace::Browser => {
            reveal_strlit("browser");
            reveal_strlit("/var/minis/browser");
        },
        Namespace::Shared => {
            reveal_strlit("shared");
            reveal_strlit("/var/minis/shared");
        },
        Namespace::Memory => {
            reveal_strlit("memory");
            reveal_strlit("/var/minis/memory");
        },
        Namespace::Mounts => {
            reveal_strlit("mounts");
            reveal_strlit("/var/minis/mounts");
        },
    }
    assert(namespace_dir(n) =~= "/var/minis/"@ + namespace_name(n));
}

/// Parsing a namespace's name gives the namespace back.
pub proof fn lemma_namespace_name_roundtrip(n: Namespace)
    ensures
        namespace_from_name(namespace_name(n)) == Some(n),
{
    reveal_strlit("attachments");
    reveal_strlit("workspace");
    reveal_strlit("offloads");
    reveal_strlit("browser");
    reveal_strlit("shared");
    reveal_strlit("memory");
    reveal_strlit("mounts");
    assert("attachments"@ =~= seq!['a', 't', 't', 'a', 'c', 'h', 'm', 'e', 'n', 't', 's']);
    assert("workspace"@ =~= seq!['w', 'o', 'r', 'k', 's', 'p', 'a', 'c', 'e']);
    assert("offloads"@ =~= seq!['o', 'f', 'f', 'l', 'o', 'a', 'd', 's']);
    assert("browser"@ =~= seq!['b', 'r', 'o', 'w', 's', 'e', 'r']);
    assert("shared"@ =~= seq!['s', 'h', 'a', 'r', 'e', 'd']);
    assert("memory"@ =~= seq!['m', 'e', 'm', 'o', 'r', 'y']);
    assert("mounts"@ =~= seq!['m', 'o', 'u', 'n', 't', 's']);
}

/// A name that parses to a namespace is that namespace's name.
pub proof fn lemma_namespace_from_name_sound(s: Seq<char>)
    ensures
        namespace_from_name(s) matches Some(n) ==> namespace_name(n) == s,
{
}

} // verus!
