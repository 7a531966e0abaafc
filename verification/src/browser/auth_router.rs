//! Google sign-in routing. Google refuses sign-in inside web views, so
//! pages on its sign-in hosts are handed to the system browser.
use vstd::prelude::*;
use vstd::string::StrSliceExecFns;
use crate::text::{
    char_pos, char_pos_exec, chars_of, contains, ends_with, lowercase, starts_with, str_contains,
    ends_with_exec, chars_eq, starts_with_exec, to_lowercase, is_ascii_text, ascii_lower,
};

verus! {

broadcast use vstd::string::group_string_axioms;

/// Routes Google sign-in pages out of the web view.
#[derive(Debug, Clone, Copy)]
pub struct GoogleAuthRouter;

/// The Google sign-in hosts; their subdomains match too.
pub open spec fn google_auth_hosts() -> Seq<Seq<char>> {
    seq![
        "accounts.google.com"@,
        "signin.google.com"@,
        "myaccount.google.com"@,
        "oauth2.googleapis.com"@,
        "accounts.youtube.com"@,
    ]
}

/// `url` with a leading `https://` or else `http://` removed.
pub open spec fn strip_scheme(url: Seq<char>) -> Seq<char> {
    if starts_with(url, "https://"@) {
        url.skip(8)
    } else if starts_with(url, "http://"@) {
        url.skip(7)
    } else {
        url
    }
}

/// The host of a URL: the scheme removed, then what comes before the
/// first `/`, then what comes before the first `:` (the port). `None` when
/// that is empty.
pub open spec fn url_host(url: Seq<char>) -> Option<Seq<char>> {
    let stripped = strip_scheme(url);
    let authority = stripped.take(char_pos(stripped, '/'));
    let host = authority.take(char_pos(authority, ':'));
    if host.len() == 0 {
        None
    } else {
        Some(host)
    }
}

/// `host` is the sign-in host `auth` or one of its subdomains.
pub open spec fn host_matches(host: Seq<char>, auth: Seq<char>) -> bool {
    host == auth || ends_with(host, seq!['.'] + auth)
}

/// Whether a lowercased host is a Google sign-in host or a subdomain of
/// one.
pub open spec fn is_auth_host(host: Seq<char>) -> bool {
    exists|i: int| 0 <= i < google_auth_hosts().len() && host_matches(host, #[trigger] google_auth_hosts()[i])
}

/// Whether `url` points at a Google sign-in host (compared lowercased).
pub open spec fn is_google_auth(url: Seq<char>) -> bool {
    match url_host(url) {
        None => false,
        Some(h) => is_auth_host(lowercase(h)),
    }
}

/// Whether a page's text shows that Google refused the web view.
pub open spec fn is_disallowed(text: Seq<char>) -> bool {
    contains(text, "disallowed_useragent"@) || contains(text, "browser is not secure"@)
        || contains(text, "403"@)
}

/// Whether `host` matches the sign-in host `auth`.
fn host_matches_exec(host: &Vec<char>, auth: &str) -> (r: bool)
    ensures
        r == host_matches(host@, auth@),
{
    let a = chars_of(auth);
    if chars_eq(host, &a) {
        return true;
    }
    let mut dotted: Vec<char> = Vec::new();
    dotted.push('.');
    crate::text::extend_chars(&mut dotted, &a);
    assert(dotted@ =~= seq!['.'] + auth@);
    ends_with_exec(host, &dotted)
}

impl GoogleAuthRouter {
    /// Whether `url` is on a Google sign-in host or a subdomain of one.
    pub fn is_google_auth_url(url: &str) -> (r: bool)
        ensures
            r == is_google_auth(url@),
            url_host(url@) matches Some(h) ==> (is_ascii_text(h) ==> r == is_auth_host(ascii_lower(h))),
    {
        match Self::extract_host(url) {
            Some(h) => Self::is_google_auth_host(to_lowercase(h).as_str()),
            None => false,
        }
    }

    /// Whether a lowercased host is a Google sign-in host or a subdomain of
    /// one.
    pub fn is_google_auth_host(host: &str) -> (r: bool)
        ensures
            r == is_auth_host(host@),
    {
        let h = chars_of(host);
        let hosts: [&str; 5] = [
            "accounts.google.com",
            "signin.google.com",
            "myaccount.google.com",
            "oauth2.googleapis.com",
            "accounts.youtube.com",
        ];
        let ghost g = google_auth_hosts();
        assert(hosts@.len() == 5);
        assert(forall|i: int| 0 <= i < 5 ==> (#[trigger] hosts@[i])@ == g[i]);
        let mut i: usize = 0;
        while i < 5
            invariant
                i <= 5,
                h@ == host@,
                forall|k: int| 0 <= k < 5 ==> (#[trigger] hosts@[k])@ == g[k],
                g == google_auth_hosts(),
                forall|k: int| 0 <= k < i ==> !host_matches(h@, #[trigger] g[k]),
            decreases 5 - i,
        {
            if host_matches_exec(&h, hosts[i]) {
                assert(host_matches(host@, g[i as int]));
                return true;
            }
            i = i + 1;
        }
        false
    }

    /// The host part of a URL (scheme and port removed), or `None` when it
    /// is empty.
    pub fn extract_host(url: &str) -> (r: Option<&str>)
        ensures
            match r {
                Some(h) => url_host(url@) == Some(h@),
                None => url_host(url@) is None,
            },
    {
        proof {
            reveal_strlit("https://");
            reveal_strlit("http://");
        }
        let v = chars_of(url);
        let https = chars_of("https://");
        let http = chars_of("http://");
        let start: usize = if starts_with_exec(&v, &https) {
            8
        } else if starts_with_exec(&v, &http) {
            7
        } else {
            0
        };
        let ghost stripped = strip_scheme(url@);
        assert(stripped =~= v@.skip(start as int));
        let rest = crate::text::slice_chars(&v, start, v.len());
        assert(rest@ =~= stripped);
        let slash = char_pos_exec(&rest, '/');
        proof { crate::text::lemma_char_pos(stripped, '/'); }
        let authority = crate::text::slice_chars(&rest, 0, slash);
        assert(authority@ =~= stripped.take(slash as int));
        let colon = char_pos_exec(&authority, ':');
        proof { crate::text::lemma_char_pos(authority@, ':'); }
        if colon == 0 {
            assert(authority@.take(0).len() == 0);
            return None;
        }
        let h = url.substring_char(start, start + colon);
        assert(h@ =~= authority@.take(colon as int));
        Some(h)
    }

    /// Whether a page's text shows a refused web view (the
    /// `disallowed_useragent` error, an insecure-browser notice or 403).
    pub fn is_disallowed_useragent(text: &str) -> (r: bool)
        ensures
            r == is_disallowed(text@),
    {
        str_contains(text, "disallowed_useragent") || str_contains(text, "browser is not secure")
            || str_contains(text, "403")
    }
}

/// Google's refusal shows in any text holding one of its three signs,
/// wherever the sign stands: `disallowed_useragent`, `browser is not
/// secure` or `403`; a text with none of them shows no refusal.
pub proof fn lemma_refusal_signs(a: Seq<char>, b: Seq<char>, t: Seq<char>)
    ensures
        is_disallowed(a + "disallowed_useragent"@ + b),
        is_disallowed(a + "browser is not secure"@ + b),
        is_disallowed(a + "403"@ + b),
        !contains(t, "disallowed_useragent"@) && !contains(t, "browser is not secure"@) && !contains(t, "403"@)
            ==> !is_disallowed(t),
{
    lemma_sign_found(a, "disallowed_useragent"@, b);
    lemma_sign_found(a, "browser is not secure"@, b);
    lemma_sign_found(a, "403"@, b);
}

/// A text holds every piece it is made of.
proof fn lemma_sign_found(a: Seq<char>, p: Seq<char>, b: Seq<char>)
    ensures
        contains(a + p + b, p),
{
    let s = a + p + b;
    assert(s.subrange(a.len() as int, (a.len() + p.len()) as int) =~= p);
    assert(crate::text::occurs_at(s, p, a.len() as int));
}

/// Each Google sign-in host, and every subdomain of one, is recognised:
/// `accounts.google.com`, `signin.google.com`, `myaccount.google.com`,
/// `oauth2.googleapis.com` and `accounts.youtube.com`.
pub proof fn lemma_sign_in_hosts(sub: Seq<char>)
    ensures
        is_auth_host("accounts.google.com"@) && is_auth_host(sub + seq!['.'] + "accounts.google.com"@),
        is_auth_host("signin.google.com"@) && is_auth_host(sub + seq!['.'] + "signin.google.com"@),
        is_auth_host("myaccount.google.com"@) && is_auth_host(sub + seq!['.'] + "myaccount.google.com"@),
        is_auth_host("oauth2.googleapis.com"@) && is_auth_host(sub + seq!['.'] + "oauth2.googleapis.com"@),
        is_auth_host("accounts.youtube.com"@) && is_auth_host(sub + seq!['.'] + "accounts.youtube.com"@),
{
    let g = google_auth_hosts();
    lemma_subdomain_matches(sub, g[0]);
    lemma_subdomain_matches(sub, g[1]);
    lemma_subdomain_matches(sub, g[2]);
    lemma_subdomain_matches(sub, g[3]);
    lemma_subdomain_matches(sub, g[4]);
    assert(host_matches(g[0], g[0]) && host_matches(sub + seq!['.'] + g[0], g[0]));
    assert(host_matches(g[1], g[1]) && host_matches(sub + seq!['.'] + g[1], g[1]));
    assert(host_matches(g[2], g[2]) && host_matches(sub + seq!['.'] + g[2], g[2]));
    assert(host_matches(g[3], g[3]) && host_matches(sub + seq!['.'] + g[3], g[3]));
    assert(host_matches(g[4], g[4]) && host_matches(sub + seq!['.'] + g[4], g[4]));
}

/// A host ending in a dot and `auth` is a subdomain of `auth`.
proof fn lemma_subdomain_matches(sub: Seq<char>, auth: Seq<char>)
    ensures
        host_matches(sub + seq!['.'] + auth, auth),
{
    let h = sub + seq!['.'] + auth;
    let d = seq!['.'] + auth;
    assert(h.subrange(h.len() - d.len(), h.len() as int) =~= d);
}

} // verus!
