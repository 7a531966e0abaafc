//! Browser actions: the action vocabulary, the input record that an
//! agent sends, its validation, and the result record.
use vstd::prelude::*;
use crate::text::{chars_eq, chars_of};
use vstd::string::StringExecFns;

verus! {

broadcast use vstd::string::group_string_axioms;

/// Every browser action the agent can request.
#[derive(Debug, Clone, Copy, PartialEq, Eq, Hash, Structural)]
pub enum BrowserAction {
    Navigate,
    Screenshot,
    Click,
    Type,
    GetText,
    Scroll,
    GetPageInfo,
    ExecuteJs,
    FindElements,
    Hover,
    GetReadable,
    SetUserAgent,
    SetViewport,
    GetBackbone,
    Fetch,
    NewTab,
    CloseTab,
    ListTabs,
    GetCookies,
    SetCookies,
    ScrollAndCollect,
    WaitForDomStable,
}

/// The wire name of an action.
pub open spec fn action_name(a: BrowserAction) -> Seq<char> {
    match a {
        BrowserAction::Navigate => "navigate"@,
        BrowserAction::Screenshot => "screenshot"@,
        BrowserAction::Click => "click"@,
        BrowserAction::Type => "type"@,
        BrowserAction::GetText => "get_text"@,
        BrowserAction::Scroll => "scroll"@,
        BrowserAction::GetPageInfo => "get_page_info"@,
        BrowserAction::ExecuteJs => "execute_js"@,
        BrowserAction::FindElements => "find_elements"@,
        BrowserAction::Hover => "hover"@,
        BrowserAction::GetReadable => "get_readable"@,
        BrowserAction::SetUserAgent => "set_user_agent"@,
        BrowserAction::SetViewport => "set_viewport"@,
        BrowserAction::GetBackbone => "get_backbone"@,
        BrowserAction::Fetch => "fetch"@,
        BrowserAction::NewTab => "new_tab"@,
        BrowserAction::CloseTab => "close_tab"@,
        BrowserAction::ListTabs => "list_tabs"@,
        BrowserAction::GetCookies => "get_cookies"@,
        BrowserAction::SetCookies => "set_cookies"@,
        BrowserAction::ScrollAndCollect => "scroll_and_collect"@,
        BrowserAction::WaitForDomStable => "wait_for_dom_stable"@,
    }
}

/// The action whose wire name is `s`, if any.
pub open spec fn action_from_name(s: Seq<char>) -> Option<BrowserAction> {
    if s == "navigate"@ { Some(BrowserAction::Navigate) }
    else if s == "screenshot"@ { Some(BrowserAction::Screenshot) }
    else if s == "click"@ { Some(BrowserAction::Click) }
    else if s == "type"@ { Some(BrowserAction::Type) }
    else if s == "get_text"@ { Some(BrowserAction::GetText) }
    else if s == "scroll"@ { Some(BrowserAction::Scroll) }
    else if s == "get_page_info"@ { Some(BrowserAction::GetPageInfo) }
    else if s == "execute_js"@ { Some(BrowserAction::ExecuteJs) }
    else if s == "find_elements"@ { Some(BrowserAction::FindElements) }
    else if s == "hover"@ { Some(BrowserAction::Hover) }
    else if s == "get_readable"@ { Some(BrowserAction::GetReadable) }
    else if s == "set_user_agent"@ { Some(BrowserAction::SetUserAgent) }
    else if s == "set_viewport"@ { Some(BrowserAction::SetViewport) }
    else if s == "get_backbone"@ { Some(BrowserAction::GetBackbone) }
    else if s == "fetch"@ { Some(BrowserAction::Fetch) }
    else if s == "new_tab"@ { Some(BrowserAction::NewTab) }
    else if s == "close_tab"@ { Some(BrowserAction::CloseTab) }
    else if s == "list_tabs"@ { Some(BrowserAction::ListTabs) }
    else if s == "get_cookies"@ { Some(BrowserAction::GetCookies) }
    else if s == "set_cookies"@ { Some(BrowserAction::SetCookies) }
    else if s == "scroll_and_collect"@ { Some(BrowserAction::ScrollAndCollect) }
    else if s == "wait_for_dom_stable"@ { Some(BrowserAction::WaitForDomStable) }
    else { None }
}

/// All actions, in declaration order.
pub open spec fn all_actions() -> Seq<BrowserAction> {
    seq![
        BrowserAction::Navigate,
        BrowserAction::Screenshot,
        BrowserAction::Click,
        BrowserAction::Type,
        BrowserAction::GetText,
        BrowserAction::Scroll,
        BrowserAction::GetPageInfo,
        BrowserAction::ExecuteJs,
        BrowserAction::FindElements,
        BrowserAction::Hover,
        BrowserAction::GetReadable,
        BrowserAction::SetUserAgent,
        BrowserAction::SetViewport,
        BrowserAction::GetBackbone,
        BrowserAction::Fetch,
        BrowserAction::NewTab,
        BrowserAction::CloseTab,
        BrowserAction::ListTabs,
        BrowserAction::GetCookies,
        BrowserAction::SetCookies,
        BrowserAction::ScrollAndCollect,
        BrowserAction::WaitForDomStable,
    ]
}

/// Whether `v` equals the string `t`.
fn eq_lit(v: &Vec<char>, t: &str) -> (r: bool)
    ensures
        r == (v@ == t@),
{
    let w = chars_of(t);
    chars_eq(v, &w)
}

impl BrowserAction {
    /// The action named `s`, or `None` for an unknown name.
    pub fn from_str(s: &str) -> (r: Option<Self>)
        ensures
            r == action_from_name(s@),
    {
        let v = chars_of(s);
        if eq_lit(&v, "navigate") {
            Some(Self::Navigate)
        } else if eq_lit(&v, "screenshot") {
            Some(Self::Screenshot)
        } else if eq_lit(&v, "click") {
            Some(Self::Click)
        } else if eq_lit(&v, "type") {
            Some(Self::Type)
        } else if eq_lit(&v, "get_text") {
            Some(Self::GetText)
        } else if eq_lit(&v, "scroll") {
            Some(Self::Scroll)
        } else if eq_lit(&v, "get_page_info") {
            Some(Self::GetPageInfo)
        } else if eq_lit(&v, "execute_js") {
            Some(Self::ExecuteJs)
        } else if eq_lit(&v, "find_elements") {
            Some(Self::FindElements)
        } else if eq_lit(&v, "hover") {
            Some(Self::Hover)
        } else if eq_lit(&v, "get_readable") {
            Some(Self::GetReadable)
        } else if eq_lit(&v, "set_user_agent") {
            Some(Self::SetUserAgent)
        } else if eq_lit(&v, "set_viewport") {
            Some(Self::SetViewport)
        } else if eq_lit(&v, "get_backbone") {
            Some(Self::GetBackbone)
        } else if eq_lit(&v, "fetch") {
            Some(Self::Fetch)
        } else if eq_lit(&v, "new_tab") {
            Some(Self::NewTab)
        } else if eq_lit(&v, "close_tab") {
            Some(Self::CloseTab)
        } else if eq_lit(&v, "list_tabs") {
            Some(Self::ListTabs)
        } else if eq_lit(&v, "get_cookies") {
            Some(Self::GetCookies)
        } else if eq_lit(&v, "set_cookies") {
            Some(Self::SetCookies)
        } else if eq_lit(&v, "scroll_and_collect") {
            Some(Self::ScrollAndCollect)
        } else if eq_lit(&v, "wait_for_dom_stable") {
            Some(Self::WaitForDomStable)
        } else {
            None
        }
    }

    /// The wire name of this action.
    pub fn as_str(&self) -> (r: &'static str)
        ensures
            r@ == action_name(*self),
    {
        match self {
            Self::Navigate => "navigate",
            Self::Screenshot => "screenshot",
            Self::Click => "click",
            Self::Type => "type",
            Self::GetText => "get_text",
            Self::Scroll => "scroll",
            Self::GetPageInfo => "get_page_info",
            Self::ExecuteJs => "execute_js",
            Self::FindElements => "find_elements",
            Self::Hover => "hover",
            Self::GetReadable => "get_readable",
            Self::SetUserAgent => "set_user_agent",
            Self::SetViewport => "set_viewport",
            Self::GetBackbone => "get_backbone",
            Self::Fetch => "fetch",
            Self::NewTab => "new_tab",
            Self::CloseTab => "close_tab",
            Self::ListTabs => "list_tabs",
            Self::GetCookies => "get_cookies",
            Self::SetCookies => "set_cookies",
            Self::ScrollAndCollect => "scroll_and_collect",
            Self::WaitForDomStable => "wait_for_dom_stable",
        }
    }

    /// Whether the action opens or replaces the page (fan-out target).
    pub fn opens_new_page(&self) -> (r: bool)
        ensures
            r == (*self == BrowserAction::Navigate),
    {
        matches!(self, Self::Navigate)
    }

    /// Whether the action changes what is on screen (an automatic
    /// screenshot follows it).
    pub fn is_visual_change(&self) -> (r: bool)
        ensures
            r == (*self == BrowserAction::Navigate || *self == BrowserAction::Click
                || *self == BrowserAction::Scroll || *self == BrowserAction::Hover
                || *self == BrowserAction::Type),
    {
        matches!(self, Self::Navigate | Self::Click | Self::Scroll | Self::Hover | Self::Type)
    }

    /// The wire names of all actions, in declaration order.
    pub fn all_values() -> (r: Vec<&'static str>)
        ensures
            r@.len() == all_actions().len(),
            forall|i: int| 0 <= i < r@.len() ==> (#[trigger] r@[i])@ == action_name(all_actions()[i]),
    {
        let mut r: Vec<&'static str> = Vec::new();
        r.push("navigate");
        r.push("screenshot");
        r.push("click");
        r.push("type");
        r.push("get_text");
        r.push("scroll");
        r.push("get_page_info");
        r.push("execute_js");
        r.push("find_elements");
        r.push("hover");
        r.push("get_readable");
        r.push("set_user_agent");
        r.push("set_viewport");
        r.push("get_backbone");
        r.push("fetch");
        r.push("new_tab");
        r.push("close_tab");
        r.push("list_tabs");
        r.push("get_cookies");
        r.push("set_cookies");
        r.push("scroll_and_collect");
        r.push("wait_for_dom_stable");
        r
    }
}

/// An action's wire name names that action and no other: parsing the name
/// of `a` gives `a` back.
pub proof fn lemma_action_name_roundtrip(a: BrowserAction)
    ensures
        action_from_name(action_name(a)) == Some(a),
{
        reveal_strlit("navigate");
        reveal_strlit("screenshot");
        reveal_strlit("click");
        reveal_strlit("type");
        reveal_strlit("get_text");
        reveal_strlit("scroll");
        reveal_strlit("get_page_info");
        reveal_strlit("execute_js");
        reveal_strlit("find_elements");
        reveal_strlit("hover");
        reveal_strlit("get_readable");
        reveal_strlit("set_user_agent");
        reveal_strlit("set_viewport");
        reveal_strlit("get_backbone");
        reveal_strlit("fetch");
        reveal_strlit("new_tab");
        reveal_strlit("close_tab");
        reveal_strlit("list_tabs");
        reveal_strlit("get_cookies");
        reveal_strlit("set_cookies");
        reveal_strlit("scroll_and_collect");
        reveal_strlit("wait_for_dom_stable");
        assert("navigate"@ =~= seq!['n', 'a', 'v', 'i', 'g', 'a', 't', 'e']);
        assert("screenshot"@ =~= seq!['s', 'c', 'r', 'e', 'e', 'n', 's', 'h', 'o', 't']);
        assert("click"@ =~= seq!['c', 'l', 'i', 'c', 'k']);
        assert("type"@ =~= seq!['t', 'y', 'p', 'e']);
        assert("get_text"@ =~= seq!['g', 'e', 't', '_', 't', 'e', 'x', 't']);
        assert("scroll"@ =~= seq!['s', 'c', 'r', 'o', 'l', 'l']);
        assert("get_page_info"@ =~= seq!['g', 'e', 't', '_', 'p', 'a', 'g', 'e', '_', 'i', 'n', 'f', 'o']);
        assert("execute_js"@ =~= seq!['e', 'x', 'e', 'c', 'u', 't', 'e', '_', 'j', 's']);
        assert("find_elements"@ =~= seq!['f', 'i', 'n', 'd', '_', 'e', 'l', 'e', 'm', 'e', 'n', 't', 's']);
        assert("hover"@ =~= seq!['h', 'o', 'v', 'e', 'r']);
        assert("get_readable"@ =~= seq!['g', 'e', 't', '_', 'r', 'e', 'a', 'd', 'a', 'b', 'l', 'e']);
        assert("set_user_agent"@ =~= seq!['s', 'e', 't', '_', 'u', 's', 'e', 'r', '_', 'a', 'g', 'e', 'n', 't']);
        assert("set_viewport"@ =~= seq!['s', 'e', 't', '_', 'v', 'i', 'e', 'w', 'p', 'o', 'r', 't']);
        assert("get_backbone"@ =~= seq!['g', 'e', 't', '_', 'b', 'a', 'c', 'k', 'b', 'o', 'n', 'e']);
        assert("fetch"@ =~= seq!['f', 'e', 't', 'c', 'h']);
        assert("new_tab"@ =~= seq!['n', 'e', 'w', '_', 't', 'a', 'b']);
        assert("close_tab"@ =~= seq!['c', 'l', 'o', 's', 'e', '_', 't', 'a', 'b']);
        assert("list_tabs"@ =~= seq!['l', 'i', 's', 't', '_', 't', 'a', 'b', 's']);
        assert("get_cookies"@ =~= seq!['g', 'e', 't', '_', 'c', 'o', 'o', 'k', 'i', 'e', 's']);
        assert("set_cookies"@ =~= seq!['s', 'e', 't', '_', 'c', 'o', 'o', 'k', 'i', 'e', 's']);
        assert("scroll_and_collect"@ =~= seq!['s', 'c', 'r', 'o', 'l', 'l', '_', 'a', 'n', 'd', '_', 'c', 'o', 'l', 'l', 'e', 'c', 't']);
        assert("wait_for_dom_stable"@ =~= seq!['w', 'a', 'i', 't', '_', 'f', 'o', 'r', '_', 'd', 'o', 'm', '_', 's', 't', 'a', 'b', 'l', 'e']);
}

/// A name that parses to an action is that action's wire name.
pub proof fn lemma_action_from_name_sound(s: Seq<char>)
    ensures
        action_from_name(s) matches Some(a) ==> action_name(a) == s,
{
}

/// Distinct actions have distinct wire names.
pub proof fn lemma_action_names_distinct(a: BrowserAction, b: BrowserAction)
    requires
        a != b,
    ensures
        action_name(a) != action_name(b),
{
    lemma_action_name_roundtrip(a);
    lemma_action_name_roundtrip(b);
}

/// `all_values` lists every action exactly once.
pub proof fn lemma_all_actions_complete(a: BrowserAction)
    ensures
        all_actions().contains(a),
        forall|i: int, j: int|
            0 <= i < j < all_actions().len() ==> all_actions()[i] != all_actions()[j],
{
    let s = all_actions();
    let k: int = match a {
        BrowserAction::Navigate => 0,
        BrowserAction::Screenshot => 1,
        BrowserAction::Click => 2,
        BrowserAction::Type => 3,
        BrowserAction::GetText => 4,
        BrowserAction::Scroll => 5,
        BrowserAction::GetPageInfo => 6,
        BrowserAction::ExecuteJs => 7,
        BrowserAction::FindElements => 8,
        BrowserAction::Hover => 9,
        BrowserAction::GetReadable => 10,
        BrowserAction::SetUserAgent => 11,
        BrowserAction::SetViewport => 12,
        BrowserAction::GetBackbone => 13,
        BrowserAction::Fetch => 14,
        BrowserAction::NewTab => 15,
        BrowserAction::CloseTab => 16,
        BrowserAction::ListTabs => 17,
        BrowserAction::GetCookies => 18,
        BrowserAction::SetCookies => 19,
        BrowserAction::ScrollAndCollect => 20,
        BrowserAction::WaitForDomStable => 21,
    };
    assert(s[k] == a);
}

/// Scroll direction.
#[derive(Debug, Clone, Copy, PartialEq, Eq, Structural)]
pub enum ScrollDirection {
    Up,
    Down,
}

/// The wire name of a scroll direction.
pub open spec fn direction_name(d: ScrollDirection) -> Seq<char> {
    match d {
        ScrollDirection::Up => "up"@,
        ScrollDirection::Down => "down"@,
    }
}

/// The direction named `s`, if any.
pub open spec fn direction_from_name(s: Seq<char>) -> Option<ScrollDirection> {
    if s == "up"@ {
        Some(ScrollDirection::Up)
    } else if s == "down"@ {
        Some(ScrollDirection::Down)
    } else {
        None
    }
}

impl ScrollDirection {
    /// The direction named `s` (`up` or `down`).
    pub fn from_str(s: &str) -> (r: Option<Self>)
        ensures
            r == direction_from_name(s@),
    {
        let v = chars_of(s);
        if eq_lit(&v, "up") {
            Some(Self::Up)
        } else if eq_lit(&v, "down") {
            Some(Self::Down)
        } else {
            None
        }
    }

    /// The wire name of this direction.
    pub fn as_str(&self) -> (r: &'static str)
        ensures
            r@ == direction_name(*self),
    {
        match self {
            Self::Up => "up",
            Self::Down => "down",
        }
    }
}

/// Parsing the name of a direction gives that direction back.
pub proof fn lemma_direction_name_roundtrip(d: ScrollDirection)
    ensures
        direction_from_name(direction_name(d)) == Some(d),
{
    reveal_strlit("up");
    reveal_strlit("down");
    assert("up"@.len() == 2);
    assert("down"@.len() == 4);
}

/// Input of a browser action, as an agent sends it (JSON in the wire form).
#[derive(Debug, Clone)]
pub struct BrowserActionInput {
    pub action: String,
    pub url: Option<String>,
    pub selector: Option<String>,
    pub text: Option<String>,
    pub coordinate_x: Option<i32>,
    pub coordinate_y: Option<i32>,
    pub direction: Option<String>,
    pub amount: Option<i32>,
    pub script: Option<String>,
    pub user_agent: Option<String>,
    pub max_depth: Option<i32>,
    pub tab_id: Option<i32>,
    pub viewport_width: Option<i32>,
    pub viewport_height: Option<i32>,
    pub reset: bool,
    pub keywords: Option<Vec<String>>,
    pub fuzzy: bool,
    pub item_selector: Option<String>,
    pub scroll_count: Option<i32>,
    pub timeout: Option<i32>,
    pub full_page: bool,
    pub cookies: Option<Vec<serde_json::Value>>,
}

impl Default for BrowserActionInput {
    fn default() -> (r: Self)
        ensures
            r.action@ == Seq::<char>::empty(),
            r.url is None && r.selector is None && r.text is None,
            r.coordinate_x is None && r.coordinate_y is None,
            r.direction is None && r.amount is None && r.script is None,
            r.user_agent is None && r.max_depth is None && r.tab_id is None,
            r.viewport_width is None && r.viewport_height is None,
            !r.reset && !r.fuzzy && !r.full_page,
            r.keywords is None && r.item_selector is None,
            r.scroll_count is None && r.timeout is None && r.cookies is None,
    {
        BrowserActionInput {
            action: String::new(),
            url: None,
            selector: None,
            text: None,
            coordinate_x: None,
            coordinate_y: None,
            direction: None,
            amount: None,
            script: None,
            user_agent: None,
            max_depth: None,
            tab_id: None,
            viewport_width: None,
            viewport_height: None,
            reset: false,
            keywords: None,
            fuzzy: false,
            item_selector: None,
            scroll_count: None,
            timeout: None,
            full_page: false,
            cookies: None,
        }
    }
}

/// Why an input is refused, or `None` when its required fields are there.
pub open spec fn validation_error(i: BrowserActionInput) -> Option<Seq<char>> {
    match action_from_name(i.action@) {
        None => Some("Unknown action: "@ + i.action@),
        Some(BrowserAction::Navigate) => if i.url is None {
            Some("navigate: url is required"@)
        } else {
            None
        },
        Some(BrowserAction::Type) => if i.selector is None && (i.coordinate_x is None
            || i.coordinate_y is None) {
            Some("type: selector or coordinates required"@)
        } else if i.text is None {
            Some("type: text is required"@)
        } else {
            None
        },
        Some(BrowserAction::Click) => if i.selector is None && (i.coordinate_x is None
            || i.coordinate_y is None) {
            Some("click: selector or coordinates required"@)
        } else {
            None
        },
        Some(BrowserAction::Scroll) => if i.direction is None {
            Some("scroll: direction is required"@)
        } else {
            None
        },
        Some(BrowserAction::ExecuteJs) => if i.script is None {
            Some("execute_js: script is required"@)
        } else {
            None
        },
        Some(BrowserAction::Fetch) => if i.url is None {
            Some("fetch: url is required"@)
        } else {
            None
        },
        Some(BrowserAction::ScrollAndCollect) => if i.item_selector is None {
            Some("scroll_and_collect: item_selector is required"@)
        } else {
            None
        },
        Some(_) => None,
    }
}

impl BrowserActionInput {
    /// The requested action, if its name is known.
    pub fn browser_action(&self) -> (r: Option<BrowserAction>)
        ensures
            r == action_from_name(self.action@),
    {
        BrowserAction::from_str(self.action.as_str())
    }

    /// Checks that the fields the action needs are present.
    pub fn validate(&self) -> (r: Result<(), String>)
        ensures
            match r {
                Ok(()) => validation_error(*self) is None,
                Err(e) => validation_error(*self) == Some(e@),
            },
    {
        let action = match self.browser_action() {
            Some(a) => a,
            None => {
                let mut msg = String::from_str("Unknown action: ");
                msg.append(self.action.as_str());
                return Err(msg);
            },
        };
        match action {
            BrowserAction::Navigate => {
                if self.url.is_none() {
                    return Err(String::from_str("navigate: url is required"));
                }
            },
            BrowserAction::Type => {
                if self.selector.is_none() && (self.coordinate_x.is_none()
                    || self.coordinate_y.is_none()) {
                    return Err(String::from_str("type: selector or coordinates required"));
                }
                if self.text.is_none() {
                    return Err(String::from_str("type: text is required"));
                }
            },
            BrowserAction::Click => {
                if self.selector.is_none() && (self.coordinate_x.is_none()
                    || self.coordinate_y.is_none()) {
                    return Err(String::from_str("click: selector or coordinates required"));
                }
            },
            BrowserAction::Scroll => {
                if self.direction.is_none() {
                    return Err(String::from_str("scroll: direction is required"));
                }
            },
            BrowserAction::ExecuteJs => {
                if self.script.is_none() {
                    return Err(String::from_str("execute_js: script is required"));
                }
            },
            BrowserAction::Fetch => {
                if self.url.is_none() {
                    return Err(String::from_str("fetch: url is required"));
                }
            },
            BrowserAction::ScrollAndCollect => {
                if self.item_selector.is_none() {
                    return Err(String::from_str("scroll_and_collect: item_selector is required"));
                }
            },
            _ => {},
        }
        Ok(())
    }
}

/// Result of a browser action.
#[derive(Debug, Clone)]
pub struct BrowserActionResult {
    pub text: String,
    pub success: bool,
    pub base64_image: Option<String>,
    pub image_file_path: Option<String>,
    pub page_url: Option<String>,
    pub tab_id: Option<i32>,
    pub minis_url: Option<String>,
}

impl BrowserActionResult {
    /// A successful result carrying `text`.
    pub fn ok(text: String) -> (r: Self)
        ensures
            r.text == text,
            r.success,
            r.base64_image is None && r.image_file_path is None && r.page_url is None,
            r.tab_id is None && r.minis_url is None,
    {
        BrowserActionResult {
            text,
            success: true,
            base64_image: None,
            image_file_path: None,
            page_url: None,
            tab_id: None,
            minis_url: None,
        }
    }

    /// A failed result whose text is `Error: ` followed by `message`.
    pub fn error(message: &str) -> (r: Self)
        ensures
            r.text@ == "Error: "@ + message@,
            !r.success,
            r.base64_image is None && r.image_file_path is None && r.page_url is None,
            r.tab_id is None && r.minis_url is None,
    {
        let mut text = String::from_str("Error: ");
        text.append(message);
        BrowserActionResult {
            text,
            success: false,
            base64_image: None,
            image_file_path: None,
            page_url: None,
            tab_id: None,
            minis_url: None,
        }
    }

    /// A successful screenshot result.
    pub fn screenshot(text: String, base64: String, file_path: String, minis_url: String) -> (r: Self)
        ensures
            r.text == text,
            r.success,
            r.base64_image == Some(base64),
            r.image_file_path == Some(file_path),
            r.page_url is None,
            r.tab_id is None,
            r.minis_url == Some(minis_url),
    {
        BrowserActionResult {
            text,
            success: true,
            base64_image: Some(base64),
            image_file_path: Some(file_path),
            page_url: None,
            tab_id: None,
            minis_url: Some(minis_url),
        }
    }
}

/// An input passes validation exactly when the fields its action needs are
/// there: a url to navigate or fetch; a selector or both coordinates to
/// click; that and a text to type; a direction to scroll; a script to
/// execute; an item selector to scroll and collect. The other known
/// actions need nothing, and an unknown action is always refused.
pub proof fn lemma_validate_requirements(i: BrowserActionInput)
    ensures
        i.action@ == action_name(BrowserAction::Navigate) ==> (validation_error(i) is None <==> i.url is Some),
        i.action@ == action_name(BrowserAction::Fetch) ==> (validation_error(i) is None <==> i.url is Some),
        i.action@ == action_name(BrowserAction::Click) ==> (validation_error(i) is None <==> (i.selector is Some
            || (i.coordinate_x is Some && i.coordinate_y is Some))),
        i.action@ == action_name(BrowserAction::Type) ==> (validation_error(i) is None <==> ((i.selector is Some
            || (i.coordinate_x is Some && i.coordinate_y is Some)) && i.text is Some)),
        i.action@ == action_name(BrowserAction::Scroll) ==> (validation_error(i) is None <==> i.direction is Some),
        i.action@ == action_name(BrowserAction::ExecuteJs) ==> (validation_error(i) is None <==> i.script is Some),
        i.action@ == action_name(BrowserAction::ScrollAndCollect) ==> (validation_error(i) is None
            <==> i.item_selector is Some),
        forall|a: BrowserAction|
            i.action@ == #[trigger] action_name(a) && a != BrowserAction::Navigate && a != BrowserAction::Fetch
                && a != BrowserAction::Click && a != BrowserAction::Type && a != BrowserAction::Scroll
                && a != BrowserAction::ExecuteJs && a != BrowserAction::ScrollAndCollect ==> validation_error(i) is None,
        (forall|a: BrowserAction| i.action@ != #[trigger] action_name(a)) ==> validation_error(i) is Some,
{
    lemma_action_from_name_sound(i.action@);
    match action_from_name(i.action@) {
        Some(a) => {
            lemma_action_name_roundtrip(a);
        },
        None => {},
    }
    assert forall|a: BrowserAction| i.action@ == #[trigger] action_name(a) implies action_from_name(i.action@)
        == Some(a) by {
        lemma_action_name_roundtrip(a);
    }
}

} // verus!
