use std::path::PathBuf;

use minis::minis_url::error::MinisUrlError;
use minis::minis_url::namespace::Namespace;
use minis::minis_url::resolver::UrlResolver;
use minis::minis_url::session_mount::SessionMount;

#[test]
fn test_to_linux_path() {
    let path = UrlResolver::to_linux_path("minis://attachments/photo.png").unwrap();
    assert_eq!(path, PathBuf::from("/var/minis/attachments/photo.png"));
}

#[test]
fn test_from_linux_path() {
    let url = UrlResolver::from_linux_path("/var/minis/workspace/report.csv");
    assert_eq!(url, Some("minis://workspace/report.csv".into()));
}

#[test]
fn test_path_traversal() {
    let result = UrlResolver::to_linux_path("minis://attachments/../etc/passwd");
    assert!(result.is_err());
}

#[test]
fn test_nested_path() {
    let path = UrlResolver::to_linux_path("minis://workspace/project/src/main.py").unwrap();
    assert_eq!(path, PathBuf::from("/var/minis/workspace/project/src/main.py"));
}

#[test]
fn test_to_linux_path_errors() {
    assert_eq!(
        UrlResolver::to_linux_path("http://x/y"),
        Err(MinisUrlError::InvalidUrl("http://x/y".into()))
    );
    assert_eq!(
        UrlResolver::to_linux_path("minis://nowhere/a"),
        Err(MinisUrlError::NamespaceNotFound("nowhere".into()))
    );
    assert_eq!(UrlResolver::to_linux_path("minis://workspace/.."), Err(MinisUrlError::PathTraversal));
    assert_eq!(
        MinisUrlError::NamespaceNotFound("nowhere".into()).message(),
        "Namespace not found: nowhere"
    );
}

#[test]
fn test_linux_path_text_of_bare_namespace() {
    assert_eq!(UrlResolver::linux_path_text("minis://workspace").unwrap(), "/var/minis/workspace");
    assert_eq!(
        UrlResolver::linux_path_text("minis://workspace//a/b").unwrap(),
        "/var/minis/workspace/a/b"
    );
}

#[test]
fn test_from_linux_path_refusals() {
    assert_eq!(UrlResolver::from_linux_path("/etc/passwd"), None);
    assert_eq!(UrlResolver::from_linux_path("/var/minis/a/../b"), None);
}

#[test]
fn test_resolve_round_trip() {
    let url = "minis://workspace/project/notes.md";
    let path = UrlResolver::linux_path_text(url).unwrap();
    assert_eq!(UrlResolver::from_linux_path(&path), Some(url.to_string()));
}

#[test]
fn test_namespace_names_round_trip() {
    for ns in SessionMount::synced_namespaces() {
        assert_eq!(Namespace::from_str(ns.as_str()), Some(ns));
        assert!(ns.linux_prefix().starts_with("/var/minis/"));
    }
}

#[test]
fn test_session_dir() {
    let m = SessionMount::new(PathBuf::from("/data/minis"));
    assert_eq!(m.session_dir("abc"), PathBuf::from("/data/minis/abc"));
}

#[test]
fn test_path_round_trip_through_pathbuf() {
    for url in ["minis://workspace/project/src/main.py", "minis://memory/2024-01-01.md", "minis://browser"] {
        let p = UrlResolver::to_linux_path(url).unwrap();
        assert_eq!(UrlResolver::url_of_path(&p), Some(url.to_string()));
    }
    assert_eq!(UrlResolver::url_of_path(&PathBuf::from("/tmp/x")), None);
}
