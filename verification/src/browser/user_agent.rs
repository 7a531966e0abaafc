//! User-agent profiles: mobile and desktop Chrome emulation.
use vstd::prelude::*;
use crate::text::{chars_eq, chars_of};

verus! {

broadcast use vstd::string::group_string_axioms;

/// A browser identity the web view can present.
#[derive(Debug, Clone, Copy, PartialEq, Eq, Structural)]
pub enum UserAgentProfile {
    MobileChrome,
    DesktopChrome,
    Custom,
}

/// The wire name of a profile.
pub open spec fn profile_name(p: UserAgentProfile) -> Seq<char> {
    match p {
        UserAgentProfile::MobileChrome => "mobile_chrome"@,
        UserAgentProfile::DesktopChrome => "desktop_chrome"@,
        UserAgentProfile::Custom => "custom"@,
    }
}

/// The profile whose wire name is `s`, if any.
pub open spec fn profile_from_name(s: Seq<char>) -> Option<UserAgentProfile> {
    if s == "mobile_chrome"@ {
        Some(UserAgentProfile::MobileChrome)
    } else if s == "desktop_chrome"@ {
        Some(UserAgentProfile::DesktopChrome)
    } else if s == "custom"@ {
        Some(UserAgentProfile::Custom)
    } else {
        None
    }
}

/// The user-agent header of a profile; a custom profile has none.
pub open spec fn profile_user_agent(p: UserAgentProfile) -> Option<Seq<char>> {
    match p {
        UserAgentProfile::MobileChrome => Some(
            "Mozilla/5.0 (Linux; Android 14; Pixel 8) AppleWebKit/537.36 (KHTML, like Gecko) Chrome/134.0.0.0 Mobile Safari/537.36"@,
        ),
        UserAgentProfile::DesktopChrome => Some(
            "Mozilla/5.0 (X11; Linux x86_64) AppleWebKit/537.36 (KHTML, like Gecko) Chrome/134.0.0.0 Safari/537.36"@,
        ),
        UserAgentProfile::Custom => None,
    }
}

/// The name shown to people.
pub open spec fn profile_display_name(p: UserAgentProfile) -> Seq<char> {
    match p {
        UserAgentProfile::MobileChrome => "Mobile Chrome"@,
        UserAgentProfile::DesktopChrome => "Desktop Chrome"@,
        UserAgentProfile::Custom => "Custom"@,
    }
}

/// Viewport (width, height) in CSS pixels: desktop is 1280x800, the
/// others use the mobile viewport 412x915.
pub open spec fn profile_viewport(p: UserAgentProfile) -> (i32, i32) {
    match p {
        UserAgentProfile::DesktopChrome => (1280, 800),
        _ => (412, 915),
    }
}

impl UserAgentProfile {
    /// The profile named `s`, if any.
    pub fn from_str(s: &str) -> (r: Option<Self>)
        ensures
            r == profile_from_name(s@),
    {
        let v = chars_of(s);
        if chars_eq(&v, &chars_of("mobile_chrome")) {
            Some(Self::MobileChrome)
        } else if chars_eq(&v, &chars_of("desktop_chrome")) {
            Some(Self::DesktopChrome)
        } else if chars_eq(&v, &chars_of("custom")) {
            Some(Self::Custom)
        } else {
            None
        }
    }

    /// The wire name of this profile.
    pub fn as_str(&self) -> (r: &'static str)
        ensures
            r@ == profile_name(*self),
    {
        match self {
            Self::MobileChrome => "mobile_chrome",
            Self::DesktopChrome => "desktop_chrome",
            Self::Custom => "custom",
        }
    }

    /// The user-agent header to send, or `None` for a custom profile.
    pub fn user_agent_string(&self) -> (r: Option<&'static str>)
        ensures
            match r {
                Some(s) => profile_user_agent(*self) == Some(s@),
                None => profile_user_agent(*self) is None,
            },
    {
        match self {
            Self::MobileChrome => Some(
                "Mozilla/5.0 (Linux; Android 14; Pixel 8) AppleWebKit/537.36 (KHTML, like Gecko) Chrome/134.0.0.0 Mobile Safari/537.36",
            ),
            Self::DesktopChrome => Some(
                "Mozilla/5.0 (X11; Linux x86_64) AppleWebKit/537.36 (KHTML, like Gecko) Chrome/134.0.0.0 Safari/537.36",
            ),
            Self::Custom => None,
        }
    }

    /// The name shown to people.
    pub fn display_name(&self) -> (r: &'static str)
        ensures
            r@ == profile_display_name(*self),
    {
        match self {
            Self::MobileChrome => "Mobile Chrome",
            Self::DesktopChrome => "Desktop Chrome",
            Self::Custom => "Custom",
        }
    }

    /// Viewport (width, height) of this profile.
    pub fn viewport_size(&self) -> (r: (i32, i32))
        ensures
            r == profile_viewport(*self),
    {
        match self {
            Self::DesktopChrome => (1280, 800),
            Self::MobileChrome | Self::Custom => (412, 915),
        }
    }
}

/// Parsing the name of a profile gives that profile back.
pub proof fn lemma_profile_name_roundtrip(p: UserAgentProfile)
    ensures
        profile_from_name(profile_name(p)) == Some(p),
{
    reveal_strlit("mobile_chrome");
    reveal_strlit("desktop_chrome");
    reveal_strlit("custom");
    assert("mobile_chrome"@.len() == 13);
    assert("desktop_chrome"@.len() == 14);
    assert("custom"@.len() == 6);
}

/// A name that parses to a profile is that profile's name.
pub proof fn lemma_profile_from_name_sound(s: Seq<char>)
    ensures
        profile_from_name(s) matches Some(p) ==> profile_name(p) == s,
{
}

} // verus!
