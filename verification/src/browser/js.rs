//! JavaScript snippets for driving the web view: clicking, typing, reading
//! text, scrolling, page information and a DOM outline.
use vstd::prelude::*;
use crate::text::{chars_of, dec_int, extend_chars, extend_str, fmt_i64, str_eq, string_of};

verus! {

broadcast use vstd::string::group_string_axioms;

/// Builds JavaScript code for browser automation.
#[derive(Debug, Clone, Copy)]
pub struct Js;

/// The escape of one character inside a single-quoted JavaScript string:
/// backslash, quote, line feed and carriage return get a backslash.
pub open spec fn js_escape_char(c: char) -> Seq<char> {
    if c == '\\' {
        seq!['\\', '\\']
    } else if c == '\'' {
        seq!['\\', '\'']
    } else if c == '\n' {
        seq!['\\', 'n']
    } else if c == '\r' {
        seq!['\\', 'r']
    } else {
        seq![c]
    }
}

/// `s` escaped character by character.
pub open spec fn js_escape(s: Seq<char>) -> Seq<char>
    decreases s.len(),
{
    if s.len() == 0 {
        seq![]
    } else {
        js_escape_char(s[0]) + js_escape(s.drop_first())
    }
}

/// `s` as a single-quoted JavaScript string literal.
pub open spec fn js_quote(s: Seq<char>) -> Seq<char> {
    seq!['\''] + js_escape(s) + seq!['\'']
}

/// The character that a backslash followed by `c` stands for.
pub open spec fn js_unescape_char(c: char) -> char {
    if c == 'n' {
        '\n'
    } else if c == 'r' {
        '\r'
    } else {
        c
    }
}

/// Reads the body of a single-quoted literal back into its characters.
pub open spec fn js_unescape(t: Seq<char>) -> Seq<char>
    decreases t.len(),
{
    if t.len() == 0 {
        seq![]
    } else if t[0] == '\\' && t.len() >= 2 {
        seq![js_unescape_char(t[1])] + js_unescape(t.skip(2))
    } else {
        seq![t[0]] + js_unescape(t.drop_first())
    }
}

/// Quoting loses nothing: reading an escaped string back gives the
/// string that was escaped.
pub proof fn lemma_js_escape_roundtrip(s: Seq<char>)
    ensures
        js_unescape(js_escape(s)) == s,
    decreases s.len(),
{
    if s.len() > 0 {
        let rest = s.drop_first();
        lemma_js_escape_roundtrip(rest);
        let e = js_escape_char(s[0]);
        let t = e + js_escape(rest);
        if e.len() == 2 {
            assert(t.skip(2) =~= js_escape(rest));
            assert(t[0] == '\\');
            assert(js_unescape(t) == seq![js_unescape_char(t[1])] + js_unescape(t.skip(2)));
        } else {
            assert(t.drop_first() =~= js_escape(rest));
            assert(js_unescape(t) == seq![t[0]] + js_unescape(t.drop_first()));
        }
        assert(s =~= seq![s[0]] + rest);
    }
}

/// An escaped string holds no raw line break, so the literal stays on one
/// line, and each quote in it is preceded by a backslash.
pub proof fn lemma_js_escape_safe(s: Seq<char>)
    ensures
        forall|i: int| 0 <= i < js_escape(s).len() ==> js_escape(s)[i] != '\n' && js_escape(s)[i] != '\r',
        forall|i: int|
            0 <= i < js_escape(s).len() && #[trigger] js_escape(s)[i] == '\'' ==> i > 0
                && js_escape(s)[i - 1] == '\\',
    decreases s.len(),
{
    if s.len() > 0 {
        let rest = s.drop_first();
        lemma_js_escape_safe(rest);
        let e = js_escape_char(s[0]);
        let t = js_escape(s);
        assert(t =~= e + js_escape(rest));
        assert forall|i: int| 0 <= i < t.len() implies t[i] != '\n' && t[i] != '\r' by {
            if i >= e.len() {
                assert(t[i] == js_escape(rest)[i - e.len()]);
            }
        }
        assert forall|i: int| 0 <= i < t.len() && #[trigger] t[i] == '\'' implies i > 0 && t[i - 1] == '\\' by {
            if i >= e.len() {
                assert(t[i] == js_escape(rest)[i - e.len()]);
                if i - e.len() > 0 {
                    assert(t[i - 1] == js_escape(rest)[i - 1 - e.len()]);
                }
            }
        }
    }
}

/// Appends the escaped form of `s` to `out`.
fn push_escaped(out: &mut Vec<char>, s: &str)
    ensures
        final(out)@ == old(out)@ + js_escape(s@),
{
    let v = chars_of(s);
    let mut i: usize = 0;
    assert(v@.skip(0) =~= v@);
    while i < v.len()
        invariant
            i <= v.len(),
            v@ == s@,
            old(out)@ + js_escape(v@) == out@ + js_escape(v@.skip(i as int)),
        decreases v.len() - i,
    {
        let c = v[i];
        let ghost before = out@;
        assert(v@.skip(i as int).drop_first() =~= v@.skip(i + 1));
        if c == '\\' {
            out.push('\\');
            out.push('\\');
        } else if c == '\'' {
            out.push('\\');
            out.push('\'');
        } else if c == '\n' {
            out.push('\\');
            out.push('n');
        } else if c == '\r' {
            out.push('\\');
            out.push('r');
        } else {
            out.push(c);
        }
        assert(out@ =~= before + js_escape_char(c));
        i = i + 1;
        assert(old(out)@ + js_escape(v@) =~= out@ + js_escape(v@.skip(i as int)));
    }
    assert(v@.skip(i as int) =~= Seq::<char>::empty());
    assert(old(out)@ + js_escape(v@) =~= out@);
}

/// Appends `s` as a quoted JavaScript string literal to `out`.
fn push_quoted(out: &mut Vec<char>, s: &str)
    ensures
        final(out)@ == old(out)@ + js_quote(s@),
{
    out.push('\'');
    push_escaped(out, s);
    out.push('\'');
    assert(out@ =~= old(out)@ + js_quote(s@));
}

/// `s` as a single-quoted JavaScript string literal, safely escaped.
pub fn js_string(s: &str) -> (r: String)
    ensures
        r@ == js_quote(s@),
{
    let mut out: Vec<char> = Vec::new();
    push_quoted(&mut out, s);
    assert(out@ =~= js_quote(s@));
    string_of(&out)
}

/// Code of a snippet: `before`, then `s` quoted, then `after`.
fn around_quoted(before: &str, s: &str, after: &str) -> (r: String)
    ensures
        r@ == before@ + js_quote(s@) + after@,
{
    let mut out = chars_of(before);
    push_quoted(&mut out, s);
    extend_str(&mut out, after);
    string_of(&out)
}

/// The scroll offset for a direction: up scrolls by minus the amount,
/// anything else by the amount.
pub open spec fn scroll_delta(direction: Seq<char>, amount: int) -> int {
    if direction == "up"@ {
        -amount
    } else {
        amount
    }
}

impl Js {
    /// Clicks the first element matching a CSS selector.
    pub fn click_selector(selector: &str) -> (r: String)
        ensures
            r@ == "(function(){var el=document.querySelector("@ + js_quote(selector@)
                + ");if(el){el.click();return 'ok'}return 'not_found'})()"@,
    {
        around_quoted(
            "(function(){var el=document.querySelector(",
            selector,
            ");if(el){el.click();return 'ok'}return 'not_found'})()",
        )
    }

    /// Clicks the element at viewport coordinates (x, y).
    pub fn click_coords(x: i32, y: i32) -> (r: String)
        ensures
            r@ == "(function(){var el=document.elementFromPoint("@ + dec_int(x as int) + ","@
                + dec_int(y as int) + ");if(el){el.click();return 'ok'}return 'not_found'})()"@,
    {
        let mut out = chars_of("(function(){var el=document.elementFromPoint(");
        extend_chars(&mut out, &fmt_i64(x as i64));
        extend_str(&mut out, ",");
        extend_chars(&mut out, &fmt_i64(y as i64));
        extend_str(&mut out, ");if(el){el.click();return 'ok'}return 'not_found'})()");
        string_of(&out)
    }

    /// Types `text` into the element matching `selector` and fires the
    /// input and change events.
    pub fn type_text(selector: &str, text: &str) -> (r: String)
        ensures
            r@ == "(function(){var el=document.querySelector("@ + js_quote(selector@)
                + ");if(el){el.focus();el.value="@ + js_quote(text@)
                + ";el.dispatchEvent(new Event('input',{bubbles:true}));el.dispatchEvent(new Event('change',{bubbles:true}));return 'ok'}return 'not_found'})()"@,
    {
        let mut out = chars_of("(function(){var el=document.querySelector(");
        push_quoted(&mut out, selector);
        extend_str(&mut out, ");if(el){el.focus();el.value=");
        push_quoted(&mut out, text);
        extend_str(
            &mut out,
            ";el.dispatchEvent(new Event('input',{bubbles:true}));el.dispatchEvent(new Event('change',{bubbles:true}));return 'ok'}return 'not_found'})()",
        );
        string_of(&out)
    }

    /// Reads the text content of the element matching `selector`.
    pub fn get_text(selector: &str) -> (r: String)
        ensures
            r@ == "(function(){var el=document.querySelector("@ + js_quote(selector@)
                + ");return el?el.textContent:null})()"@,
    {
        around_quoted(
            "(function(){var el=document.querySelector(",
            selector,
            ");return el?el.textContent:null})()",
        )
    }

    /// Reads the readable text of the page (article, main or body, without
    /// scripts, styles and navigation).
    pub fn get_readable() -> (r: &'static str)
        ensures
            r@ == "(function(){
            var article=document.querySelector('article')||document.querySelector('main')||document.body;
            var clone=article.cloneNode(true);
            clone.querySelectorAll('script,style,noscript,svg,nav,footer,header,aside').forEach(function(e){e.remove()});
            return clone.innerText||clone.textContent||'';
        })()"@,
    {
        "(function(){
            var article=document.querySelector('article')||document.querySelector('main')||document.body;
            var clone=article.cloneNode(true);
            clone.querySelectorAll('script,style,noscript,svg,nav,footer,header,aside').forEach(function(e){e.remove()});
            return clone.innerText||clone.textContent||'';
        })()"
    }

    /// Scrolls the window vertically by `amount`, upwards when `direction`
    /// is `up`.
    pub fn scroll(direction: &str, amount: i32) -> (r: String)
        requires
            direction@ == "up"@ ==> amount != i32::MIN,
        ensures
            r@ == "window.scrollBy(0,"@ + dec_int(scroll_delta(direction@, amount as int)) + ")"@,
    {
        let delta: i32 = if str_eq(direction, "up") {
            -amount
        } else {
            amount
        };
        let mut out = chars_of("window.scrollBy(0,");
        extend_chars(&mut out, &fmt_i64(delta as i64));
        extend_str(&mut out, ")");
        string_of(&out)
    }

    /// Reads the page URL, title and ready state as JSON.
    pub fn get_page_info() -> (r: &'static str)
        ensures
            r@ == "(function(){return JSON.stringify({url:location.href,title:document.title,readyState:document.readyState})})()"@,
    {
        "(function(){return JSON.stringify({url:location.href,title:document.title,readyState:document.readyState})})()"
    }

    /// Outlines the DOM under `body` down to `max_depth` levels.
    pub fn get_backbone(max_depth: i32) -> (r: String)
        ensures
            r@ == "(function(d,m){function walk(n,depth){if(!n||depth>m)return'';var t=n.tagName?n.tagName.toLowerCase():'#text';var s='<'+t;if(n.id)s+=' id=\"'+n.id+'\"';if(n.className&&typeof n.className==='string')s+=' class=\"'+n.className.split(' ').slice(0,3).join(' ')+'\"';s+='>';if(depth<m){for(var i=0;i<n.children.length;i++)s+=walk(n.children[i],depth+1);}return s}return walk(document.body,0)})(document,"@
                + dec_int(max_depth as int) + ")"@,
    {
        let mut out = chars_of(
            "(function(d,m){function walk(n,depth){if(!n||depth>m)return'';var t=n.tagName?n.tagName.toLowerCase():'#text';var s='<'+t;if(n.id)s+=' id=\"'+n.id+'\"';if(n.className&&typeof n.className==='string')s+=' class=\"'+n.className.split(' ').slice(0,3).join(' ')+'\"';s+='>';if(depth<m){for(var i=0;i<n.children.length;i++)s+=walk(n.children[i],depth+1);}return s}return walk(document.body,0)})(document,",
        );
        extend_chars(&mut out, &fmt_i64(max_depth as i64));
        extend_str(&mut out, ")");
        string_of(&out)
    }

    /// Counts the elements matching `selector`.
    pub fn find_elements(selector: &str) -> (r: String)
        ensures
            r@ == "(function(){var els=document.querySelectorAll("@ + js_quote(selector@)
                + ");return els.length})()"@,
    {
        around_quoted(
            "(function(){var els=document.querySelectorAll(",
            selector,
            ");return els.length})()",
        )
    }

    /// Fires a mouseover on the element matching `selector`.
    pub fn hover(selector: &str) -> (r: String)
        ensures
            r@ == "(function(){var el=document.querySelector("@ + js_quote(selector@)
                + ");if(el){var e=new MouseEvent('mouseover',{bubbles:true});el.dispatchEvent(e);return 'ok'}return 'not_found'})()"@,
    {
        around_quoted(
            "(function(){var el=document.querySelector(",
            selector,
            ");if(el){var e=new MouseEvent('mouseover',{bubbles:true});el.dispatchEvent(e);return 'ok'}return 'not_found'})()",
        )
    }
}

/// Scrolling goes down by the amount for every direction but `up`, and
/// `up` goes the other way by the same amount.
pub proof fn lemma_scroll_direction(direction: Seq<char>, amount: int)
    ensures
        direction != seq!['u', 'p'] ==> scroll_delta(direction, amount) == amount,
        scroll_delta(seq!['u', 'p'], amount) == -amount,
        scroll_delta(seq!['u', 'p'], amount) == -scroll_delta(seq!['d', 'o', 'w', 'n'], amount),
{
    reveal_strlit("up");
    assert("up"@ =~= seq!['u', 'p']);
    assert(seq!['d', 'o', 'w', 'n'] != seq!['u', 'p']) by {
        assert(seq!['d', 'o', 'w', 'n'].len() != seq!['u', 'p'].len());
    }
}

} // verus!
