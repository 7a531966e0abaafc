//! Session file management. On a session switch the files of the current
//! session are harvested to persistent storage, and the files of the next
//! session are mounted under `/var/minis/`.
use vstd::prelude::*;
use vstd::string::StringExecFns;
use crate::minis_url::namespace::Namespace;
use crate::paths::{join_path, path_buf_from, path_from_text, path_join};

verus! {

broadcast use vstd::string::group_string_axioms;

/// Where session files live: a persistent root holding one directory per
/// session, and the Linux-visible root `/var/minis`.
pub struct SessionMount {
    persistent_root: std::path::PathBuf,
    linux_root: std::path::PathBuf,
}

/// The namespaces whose files move with a session, in copy order.
pub open spec fn session_namespaces() -> Seq<Namespace> {
    seq![Namespace::Attachments, Namespace::Workspace, Namespace::Offloads, Namespace::Browser]
}

impl SessionMount {
    /// The persistent root.
    pub closed spec fn persistent_root(&self) -> std::path::PathBuf {
        self.persistent_root
    }

    /// The Linux-visible root.
    pub closed spec fn linux_root(&self) -> std::path::PathBuf {
        self.linux_root
    }

    /// Session storage under `persistent_root`, shown to Linux at `/var/minis`.
    pub fn new(persistent_root: std::path::PathBuf) -> (r: Self)
        ensures
            r.persistent_root() == persistent_root,
            r.linux_root() == path_from_text("/var/minis"@),
    {
        SessionMount {
            persistent_root,
            linux_root: path_buf_from(String::from_str("/var/minis")),
        }
    }

    /// The persistent directory of a session: the root joined with its id.
    pub fn session_dir(&self, session_id: &str) -> (r: std::path::PathBuf)
        ensures
            r == path_join(self.persistent_root(), session_id@),
    {
        join_path(&self.persistent_root, session_id)
    }

    /// The Linux-visible root, `/var/minis`.
    pub fn linux_root_dir(&self) -> (r: &std::path::PathBuf)
        ensures
            *r == self.linux_root(),
    {
        &self.linux_root
    }

    /// The namespaces copied on mount and harvest: attachments, workspace,
    /// offloads and browser.
    pub fn synced_namespaces() -> (r: Vec<Namespace>)
        ensures
            r@ == session_namespaces(),
    {
        let mut r: Vec<Namespace> = Vec::new();
        r.push(Namespace::Attachments);
        r.push(Namespace::Workspace);
        r.push(Namespace::Offloads);
        r.push(Namespace::Browser);
        assert(r@ =~= session_namespaces());
        r
    }
}

} // verus!
