//! File-system paths (`std::path::PathBuf`) as the library hands them out.
use vstd::prelude::*;

verus! {

/// `std::path::PathBuf`, held opaquely.
#[verifier::external_type_specification]
#[verifier::external_body]
pub struct ExPathBuf(std::path::PathBuf);

/// The path `PathBuf::from` makes of a string.
pub uninterp spec fn path_from_text(s: Seq<char>) -> std::path::PathBuf;

/// The text `Path::to_str` gives of a path: `None` where the path is not
/// valid Unicode.
pub uninterp spec fn path_text(p: std::path::PathBuf) -> Option<Seq<char>>;

/// Calls `PathBuf::from` on a string; the result is `path_from_text` of its
/// characters. `PathBuf::from` takes the string's buffer as it is, so
/// `Path::to_str` gives the same text back.
#[verifier::external_body]
pub(crate) fn path_buf_from(s: String) -> (p: std::path::PathBuf)
    ensures
        p == path_from_text(s@),
        path_text(p) == Some(s@),
{
    std::path::PathBuf::from(s)
}

/// Calls `Path::to_str` and copies the text out; the result is `path_text`
/// of the path.
#[verifier::external_body]
pub(crate) fn path_to_text(p: &std::path::PathBuf) -> (r: Option<String>)
    ensures
        match r {
            Some(s) => path_text(*p) == Some(s@),
            None => path_text(*p) is None,
        },
{
    match p.to_str() {
        Some(s) => Some(s.to_string()),
        None => None,
    }
}

/// The path `Path::join` makes of a base path and a child.
pub uninterp spec fn path_join(base: std::path::PathBuf, child: Seq<char>) -> std::path::PathBuf;

/// Calls `Path::join`; the result is `path_join` of the base and the
/// child's characters.
#[verifier::external_body]
pub(crate) fn join_path(base: &std::path::PathBuf, child: &str) -> (p: std::path::PathBuf)
    ensures
        p == path_join(*base, child@),
{
    base.join(child)
}

/// What `Path::strip_prefix` leaves of `path` once the whole leading
/// components of `base` are taken off, as `Path::display` shows it; `None`
/// where `base` is not such a prefix of `path`.
pub uninterp spec fn path_strip_prefix(path: Seq<char>, base: Seq<char>) -> Option<Seq<char>>;

/// Calls `Path::strip_prefix` on `path` with `base` and shows the rest with
/// `Path::display`; the result is `path_strip_prefix` of the two texts.
/// Component matching itself (`/var/minis` counts as under `/var/minis/`)
/// is left to std and not stated here.
#[verifier::external_body]
pub(crate) fn strip_path_prefix(path: &str, base: &str) -> (r: Option<String>)
    ensures
        match r {
            Some(rest) => path_strip_prefix(path@, base@) == Some(rest@),
            None => path_strip_prefix(path@, base@) is None,
        },
{
    match std::path::Path::new(path).strip_prefix(base) {
        Ok(rest) => Some(rest.display().to_string()),
        Err(_) => None,
    }
}

/// The extension `Path::extension` finds in the last component of `path`
/// (the text after its last dot), if any.
pub uninterp spec fn path_extension(path: Seq<char>) -> Option<Seq<char>>;

/// Calls `Path::extension` on `path`; the result is `path_extension` of its
/// text. Which dots count (a leading dot does not) is left to std.
#[verifier::external_body]
pub(crate) fn extension_of(path: &str) -> (r: Option<String>)
    ensures
        match r {
            Some(e) => path_extension(path@) == Some(e@),
            None => path_extension(path@) is None,
        },
{
    match std::path::Path::new(path).extension() {
        Some(e) => Some(e.to_string_lossy().into_owned()),
        None => None,
    }
}

} // verus!
