//! Resolution between `minis://` URLs and Linux paths.
use vstd::prelude::*;
use crate::minis_url::error::MinisUrlError;
use crate::minis_url::namespace::{namespace_dir, namespace_from_name, namespace_name, Namespace};
use crate::paths::{path_buf_from, path_from_text, path_text, path_to_text};
use crate::text::{
    char_pos, char_pos_exec, chars_of, contains, contains_exec, extend_chars, has_char, owned,
    slice_chars, starts_with, starts_with_exec, string_of, trim_leading, trim_leading_exec,
};

verus! {

broadcast use vstd::string::group_string_axioms;

/// Resolves `minis://` URLs to Linux paths and back.
#[derive(Debug, Clone, Copy)]
pub struct UrlResolver;

/// What follows `minis://` in a URL.
pub open spec fn url_rest(url: Seq<char>) -> Seq<char> {
    url.skip(8)
}

/// The namespace part of a URL: up to the first `/` after the scheme.
pub open spec fn url_namespace(url: Seq<char>) -> Seq<char> {
    url_rest(url).take(char_pos(url_rest(url), '/'))
}

/// The path part of a URL: from the first `/` after the scheme on (empty
/// when there is none).
pub open spec fn url_path(url: Seq<char>) -> Seq<char> {
    url_rest(url).skip(char_pos(url_rest(url), '/'))
}

/// The path part as it is appended to the namespace directory: leading
/// slashes collapse into one separator, and an empty path adds nothing.
pub open spec fn joined_path(path: Seq<char>) -> Seq<char> {
    if path.len() == 0 {
        Seq::empty()
    } else {
        seq!['/'] + trim_leading(path, '/')
    }
}

/// How a URL resolves.
pub enum Resolution {
    /// Not a `minis://` URL.
    NotMinis,
    /// The namespace is unknown.
    UnknownNamespace,
    /// The path holds `..`.
    Traversal,
    /// The Linux path of the URL.
    Path(Seq<char>),
}

/// How `url` resolves: the scheme, then the namespace, then `..` are
/// checked; a good URL gives its namespace directory followed by its path.
pub open spec fn resolve(url: Seq<char>) -> Resolution {
    if !starts_with(url, "minis://"@) {
        Resolution::NotMinis
    } else {
        match namespace_from_name(url_namespace(url)) {
            None => Resolution::UnknownNamespace,
            Some(ns) => if contains(url_path(url), ".."@) {
                Resolution::Traversal
            } else {
                Resolution::Path(namespace_dir(ns) + joined_path(url_path(url)))
            },
        }
    }
}

/// What `from_linux_path` gives for `path`: the part after `/var/minis/`
/// under the `minis://` scheme, unless it holds `..` or the prefix is
/// missing.
pub open spec fn minis_url_of(path: Seq<char>) -> Option<Seq<char>> {
    if starts_with(path, "/var/minis/"@) && !contains(path.skip(11), ".."@) {
        Some("minis://"@ + path.skip(11))
    } else {
        None
    }
}

impl UrlResolver {
    /// The Linux path of a `minis://` URL as text, e.g.
    /// `minis://attachments/photo.png` gives `/var/minis/attachments/photo.png`.
    pub fn linux_path_text(url: &str) -> (r: Result<String, MinisUrlError>)
        ensures
            match r {
                Ok(p) => resolve(url@) == Resolution::Path(p@),
                Err(MinisUrlError::InvalidUrl(u)) => resolve(url@) is NotMinis && u@ == url@,
                Err(MinisUrlError::NamespaceNotFound(n)) => resolve(url@) is UnknownNamespace
                    && n@ == url_namespace(url@),
                Err(MinisUrlError::PathTraversal) => resolve(url@) is Traversal,
            },
    {
        proof {
            reveal_strlit("minis://");
        }
        let v = chars_of(url);
        let scheme = chars_of("minis://");
        if !starts_with_exec(&v, &scheme) {
            return Err(MinisUrlError::InvalidUrl(owned(url)));
        }
        let rest = slice_chars(&v, 8, v.len());
        assert(rest@ =~= url_rest(url@));
        let pos = char_pos_exec(&rest, '/');
        proof { crate::text::lemma_char_pos(rest@, '/'); }
        let ns_text = slice_chars(&rest, 0, pos);
        let path = slice_chars(&rest, pos, rest.len());
        assert(ns_text@ =~= url_namespace(url@));
        assert(path@ =~= url_path(url@));
        let ns_string = string_of(&ns_text);
        let ns = match Namespace::from_str(ns_string.as_str()) {
            Some(n) => n,
            None => return Err(MinisUrlError::NamespaceNotFound(ns_string)),
        };
        if contains_exec(&path, &chars_of("..")) {
            return Err(MinisUrlError::PathTraversal);
        }
        let mut full = chars_of(ns.linux_prefix());
        if path.len() > 0 {
            let ghost before = full@;
            full.push('/');
            let t = trim_leading_exec(&path, '/');
            extend_chars(&mut full, &t);
            assert(full@ =~= before + joined_path(path@));
        } else {
            assert(full@ =~= namespace_dir(ns) + joined_path(path@));
        }
        Ok(string_of(&full))
    }

    /// The Linux path of a `minis://` URL.
    pub fn to_linux_path(url: &str) -> (r: Result<std::path::PathBuf, MinisUrlError>)
        ensures
            match r {
                Ok(p) => resolve(url@) matches Resolution::Path(t) && p == path_from_text(t)
                    && path_text(p) == Some(t),
                Err(MinisUrlError::InvalidUrl(u)) => resolve(url@) is NotMinis && u@ == url@,
                Err(MinisUrlError::NamespaceNotFound(n)) => resolve(url@) is UnknownNamespace
                    && n@ == url_namespace(url@),
                Err(MinisUrlError::PathTraversal) => resolve(url@) is Traversal,
            },
    {
        match Self::linux_path_text(url) {
            Ok(t) => Ok(path_buf_from(t)),
            Err(e) => Err(e),
        }
    }

    /// The `minis://` URL of a path (see `from_linux_path`), or `None` for a
    /// path that is not valid Unicode.
    pub fn url_of_path(p: &std::path::PathBuf) -> (r: Option<String>)
        ensures
            match path_text(*p) {
                Some(t) => match r {
                    Some(u) => minis_url_of(t) == Some(u@),
                    None => minis_url_of(t) is None,
                },
                None => r is None,
            },
    {
        match path_to_text(p) {
            Some(t) => Self::from_linux_path(t.as_str()),
            None => None,
        }
    }

    /// The `minis://` URL of a path under `/var/minis/`, or `None` for a
    /// path elsewhere or one holding `..`.
    pub fn from_linux_path(path: &str) -> (r: Option<String>)
        ensures
            match r {
                Some(u) => minis_url_of(path@) == Some(u@),
                None => minis_url_of(path@) is None,
            },
    {
        proof {
            reveal_strlit("/var/minis/");
        }
        let v = chars_of(path);
        if !starts_with_exec(&v, &chars_of("/var/minis/")) {
            return None;
        }
        let relative = slice_chars(&v, 11, v.len());
        assert(relative@ =~= path@.skip(11));
        if contains_exec(&relative, &chars_of("..")) {
            return None;
        }
        let mut out = chars_of("minis://");
        extend_chars(&mut out, &relative);
        Some(string_of(&out))
    }
}

/// Namespace names hold no dot.
proof fn lemma_namespace_name_no_dot(n: Namespace)
    ensures
        !has_char(namespace_name(n), '.'),
{
    reveal_strlit("attachments");
    reveal_strlit("workspace");
    reveal_strlit("offloads");
    reveal_strlit("browser");
    reveal_strlit("shared");
    reveal_strlit("memory");
    reveal_strlit("mounts");
}

/// The joined path of a URL path without `..` holds no `..`.
proof fn lemma_joined_path_no_dotdot(path: Seq<char>)
    requires
        !contains(path, seq!['.', '.']),
    ensures
        !contains(joined_path(path), seq!['.', '.']),
{
    if path.len() > 0 {
        crate::text::lemma_trim_leading_suffix(path, '/');
        let k = choose|k: int| 0 <= k <= path.len() && trim_leading(path, '/') == path.skip(k);
        if contains(path.skip(k), seq!['.', '.']) {
            crate::text::lemma_contains_skip(path, k, seq!['.', '.']);
        }
        crate::text::lemma_no_dotdot_concat(seq!['/'], trim_leading(path, '/'));
    } else {
        assert(!contains(Seq::<char>::empty(), seq!['.', '.']));
    }
}

/// Every resolved path stays inside `/var/minis/`: it starts with the
/// directory of the URL's namespace and holds no `..`, whatever the URL.
pub proof fn lemma_resolved_path_confined(url: Seq<char>)
    ensures
        resolve(url) matches Resolution::Path(p) ==> {
            &&& starts_with(p, "/var/minis/"@)
            &&& starts_with(p, namespace_dir(namespace_from_name(url_namespace(url))->0))
            &&& !contains(p, ".."@)
        },
{
    if let Resolution::Path(p) = resolve(url) {
        let ns = namespace_from_name(url_namespace(url))->0;
        reveal_strlit("..");
        reveal_strlit("/var/minis/");
        assert(".."@ =~= seq!['.', '.']);
        crate::minis_url::namespace::lemma_namespace_dir(ns);
        lemma_namespace_name_no_dot(ns);
        lemma_joined_path_no_dotdot(url_path(url));
        let prefix = "/var/minis/"@ + namespace_name(ns);
        assert(!has_char(prefix, '.')) by {
            if has_char(prefix, '.') {
                let i = choose|i: int| 0 <= i < prefix.len() && prefix[i] == '.';
                if i >= 11 {
                    assert(namespace_name(ns)[i - 11] == '.');
                }
            }
        }
        crate::text::lemma_no_dotdot_concat(prefix, joined_path(url_path(url)));
        assert(p == prefix + joined_path(url_path(url)));
        assert(p.subrange(0, 11) =~= "/var/minis/"@);
        assert(p.subrange(0, namespace_dir(ns).len() as int) =~= namespace_dir(ns));
    }
}

/// A resolved path maps back to the URL in canonical form: the namespace
/// followed by the path with its leading slashes collapsed. A URL already
/// in that form comes back unchanged.
pub proof fn lemma_resolve_roundtrip(url: Seq<char>)
    ensures
        resolve(url) matches Resolution::Path(p) ==> {
            &&& minis_url_of(p) == Some("minis://"@ + url_namespace(url) + joined_path(url_path(url)))
            &&& (joined_path(url_path(url)) == url_path(url) ==> minis_url_of(p) == Some(url))
        },
{
    if let Resolution::Path(p) = resolve(url) {
        let ns = namespace_from_name(url_namespace(url))->0;
        reveal_strlit("..");
        reveal_strlit("/var/minis/");
        reveal_strlit("minis://");
        assert(".."@ =~= seq!['.', '.']);
        crate::minis_url::namespace::lemma_namespace_dir(ns);
        lemma_namespace_name_no_dot(ns);
        lemma_joined_path_no_dotdot(url_path(url));
        crate::text::lemma_no_dotdot_concat(namespace_name(ns), joined_path(url_path(url)));
        assert(p.skip(11) =~= namespace_name(ns) + joined_path(url_path(url)));
        assert(p.subrange(0, 11) =~= "/var/minis/"@);
        assert(namespace_name(ns) == url_namespace(url));
        assert("minis://"@ + url_namespace(url) + joined_path(url_path(url)) =~= "minis://"@ + p.skip(11));
        if joined_path(url_path(url)) == url_path(url) {
            crate::text::lemma_char_pos(url_rest(url), '/');
            assert(url_rest(url) =~= url_namespace(url) + url_path(url));
            assert(url =~= "minis://"@ + url_rest(url));
        }
    }
}

/// A URL in canonical form (no doubled or leading slash in its path) comes
/// back unchanged from the path it resolves to: the path that
/// `to_linux_path` hands out, read back with `Path::to_str`, maps to the
/// same URL.
pub proof fn lemma_path_roundtrip(url: Seq<char>, p: std::path::PathBuf)
    requires
        resolve(url) matches Resolution::Path(t) && p == path_from_text(t) && path_text(p) == Some(t),
        joined_path(url_path(url)) == url_path(url),
    ensures
        path_text(p) matches Some(t) && minis_url_of(t) == Some(url),
{
    lemma_resolve_roundtrip(url);
}

} // verus!
