//! Context compaction: when a conversation grows long, older messages are
//! replaced by one summary message and only the most recent ones are kept.
use vstd::prelude::*;
use crate::agent::message::{copy_messages, message_views, ContentPart, LlmMessage, Role};
use crate::text::{
    chars_of, dec_nat, extend_chars, extend_str, fmt_u128, join, join_exec, string_of, utf8_len,
    utf8_len_exec, utf8_width, utf8_width_exec,
};

verus! {

broadcast use vstd::string::group_string_axioms;

/// When to compact and what to keep.
#[derive(Debug, Clone, Copy)]
pub struct CompactionConfig {
    /// Compact once the text of the conversation exceeds this many bytes
    /// (about four per token).
    pub char_threshold: usize,
    /// How many of the latest messages survive compaction unchanged.
    pub keep_recent: usize,
}

impl Default for CompactionConfig {
    /// A threshold of 640 000 bytes (160 000 tokens) and six kept messages.
    fn default() -> (r: Self)
        ensures
            r.char_threshold == 640_000,
            r.keep_recent == 6,
    {
        CompactionConfig { char_threshold: 160_000 * 4, keep_recent: 6 }
    }
}

/// The texts of the text parts, in order.
pub open spec fn text_parts(c: Seq<ContentPart>) -> Seq<Seq<char>>
    decreases c.len(),
{
    if c.len() == 0 {
        Seq::empty()
    } else {
        match c.last() {
            ContentPart::Text { text } => text_parts(c.drop_last()).push(text@),
            ContentPart::Other => text_parts(c.drop_last()),
        }
    }
}

/// UTF-8 bytes of the text parts of a message.
pub open spec fn content_bytes(c: Seq<ContentPart>) -> nat
    decreases c.len(),
{
    if c.len() == 0 {
        0
    } else {
        content_bytes(c.drop_last()) + match c.last() {
            ContentPart::Text { text } => utf8_len(text@),
            ContentPart::Other => 0,
        }
    }
}

/// UTF-8 bytes of all text in a conversation.
pub open spec fn total_bytes(ms: Seq<LlmMessage>) -> nat
    decreases ms.len(),
{
    if ms.len() == 0 {
        0
    } else {
        total_bytes(ms.drop_last()) + content_bytes(ms.last().content@)
    }
}

/// How a role is named in a summary.
pub open spec fn role_label(r: Role) -> Seq<char> {
    match r {
        Role::User => "User"@,
        Role::Assistant => "Assistant"@,
        Role::System => "System"@,
        Role::Tool => "Tool"@,
    }
}

/// The text of a message: its text parts joined by line breaks.
pub open spec fn message_text(m: LlmMessage) -> Seq<char> {
    join(text_parts(m.content@), "\n"@)
}

/// One summary line per message with text: `[Role] text`.
pub open spec fn summary_entries(ms: Seq<LlmMessage>) -> Seq<Seq<char>>
    decreases ms.len(),
{
    if ms.len() == 0 {
        Seq::empty()
    } else {
        let t = message_text(ms.last());
        if t.len() == 0 {
            summary_entries(ms.drop_last())
        } else {
            summary_entries(ms.drop_last()).push("["@ + role_label(ms.last().role) + "] "@ + t)
        }
    }
}

/// The summary of `ms`: its entries separated by blank lines.
pub open spec fn summary_text(ms: Seq<LlmMessage>) -> Seq<char> {
    join(summary_entries(ms), "\n\n"@)
}

/// Most summary bytes kept before truncation.
pub open spec fn summary_limit() -> nat {
    8000
}

/// The summary can be cut at the byte limit: it is short enough, or the
/// limit falls between two characters.
pub open spec fn cut_ok(s: Seq<char>) -> bool {
    utf8_len(s) > summary_limit() ==> exists|k: int| 0 <= k <= s.len() && utf8_len(s.take(k)) == summary_limit()
}

/// The characters of `s` that make up its first `summary_limit()` bytes.
pub open spec fn cut_prefix(s: Seq<char>) -> Seq<char> {
    s.take(choose|k: int| 0 <= k <= s.len() && utf8_len(s.take(k)) == summary_limit())
}

/// The summary as it appears in the summary message: cut at the byte limit
/// with a note of its full size when longer.
pub open spec fn summary_body(s: Seq<char>) -> Seq<char> {
    if utf8_len(s) > summary_limit() {
        cut_prefix(s) + "...(truncated, "@ + dec_nat(utf8_len(s)) + " total chars)"@
    } else {
        s
    }
}

/// The text of the summary message.
pub open spec fn summary_message(s: Seq<char>) -> Seq<char> {
    "Previous conversation summary (compacted):\n"@ + summary_body(s)
        + "\n\n[End of summary. Recent messages follow.]"@
}

/// Where the messages to summarize end.
pub open spec fn split_point(ms: Seq<LlmMessage>, keep: nat) -> int {
    ms.len() - keep
}

/// Bytes of a prefix grow strictly with the prefix.
proof fn lemma_utf8_prefix_strict(s: Seq<char>, i: int, j: int)
    requires
        0 <= i < j <= s.len(),
    ensures
        utf8_len(s.take(i)) < utf8_len(s.take(j)),
    decreases j - i,
{
    assert(s.take(j).drop_last() =~= s.take(j - 1));
    if i < j - 1 {
        lemma_utf8_prefix_strict(s, i, j - 1);
    }
}

/// The text parts of a content list.
fn text_parts_exec(c: &Vec<ContentPart>) -> (r: Vec<Vec<char>>)
    ensures
        r@.map_values(|p: Vec<char>| p@) == text_parts(c@),
{
    let mut r: Vec<Vec<char>> = Vec::new();
    let mut i: usize = 0;
    assert(c@.take(0) =~= Seq::<ContentPart>::empty());
    assert(r@.map_values(|p: Vec<char>| p@) =~= Seq::<Seq<char>>::empty());
    while i < c.len()
        invariant
            i <= c@.len(),
            r@.map_values(|p: Vec<char>| p@) == text_parts(c@.take(i as int)),
        decreases c@.len() - i,
    {
        assert(c@.take(i + 1).drop_last() =~= c@.take(i as int));
        assert(c@.take(i + 1).last() == c@[i as int]);
        match &c[i] {
            ContentPart::Text { text } => {
                let ghost before = r@;
                r.push(chars_of(text.as_str()));
                assert(r@.map_values(|p: Vec<char>| p@) =~= before.map_values(|p: Vec<char>| p@).push(
                    text@,
                ));
            },
            ContentPart::Other => {},
        }
        i = i + 1;
    }
    assert(c@.take(c@.len() as int) =~= c@);
    r
}

/// A prefix of a content list holds no more text than the whole.
proof fn lemma_content_bytes_prefix(c: Seq<ContentPart>, k: int)
    requires
        0 <= k <= c.len(),
    ensures
        content_bytes(c.take(k)) <= content_bytes(c),
    decreases c.len(),
{
    if k < c.len() {
        assert(c.drop_last().take(k) =~= c.take(k));
        lemma_content_bytes_prefix(c.drop_last(), k);
    } else {
        assert(c.take(k) =~= c);
    }
}

/// UTF-8 bytes of the text of a content list.
fn content_bytes_exec(c: &Vec<ContentPart>) -> (r: u128)
    requires
        content_bytes(c@) <= usize::MAX,
    ensures
        r == content_bytes(c@),
{
    let mut acc: u128 = 0;
    let mut i: usize = 0;
    assert(c@.take(0) =~= Seq::<ContentPart>::empty());
    while i < c.len()
        invariant
            i <= c@.len(),
            acc == content_bytes(c@.take(i as int)),
            content_bytes(c@) <= usize::MAX,
        decreases c@.len() - i,
    {
        assert(c@.take(i + 1).drop_last() =~= c@.take(i as int));
        assert(c@.take(i + 1).last() == c@[i as int]);
        proof { lemma_content_bytes_prefix(c@, i + 1); }
        match &c[i] {
            ContentPart::Text { text } => {
                let v = chars_of(text.as_str());
                let n = utf8_len_exec(&v);
                acc = acc + n;
            },
            ContentPart::Other => {},
        }
        i = i + 1;
    }
    assert(c@.take(c@.len() as int) =~= c@);
    acc
}

/// UTF-8 bytes of all text in `messages` (what the text parts' `len()`
/// add up to).
pub fn total_chars(messages: &[LlmMessage]) -> (r: usize)
    requires
        total_bytes(messages@) <= usize::MAX,
    ensures
        r == total_bytes(messages@),
{
    let mut acc: u128 = 0;
    let mut i: usize = 0;
    assert(messages@.take(0) =~= Seq::<LlmMessage>::empty());
    while i < messages.len()
        invariant
            i <= messages@.len(),
            acc == total_bytes(messages@.take(i as int)),
            total_bytes(messages@) <= usize::MAX,
        decreases messages@.len() - i,
    {
        assert(messages@.take(i + 1).drop_last() =~= messages@.take(i as int));
        assert(messages@.take(i + 1).last() == messages@[i as int]);
        proof { lemma_total_bytes_prefix(messages@, i + 1); }
        let n = content_bytes_exec(&messages[i].content);
        acc = acc + n;
        i = i + 1;
    }
    assert(messages@.take(messages@.len() as int) =~= messages@);
    acc as usize
}

/// UTF-8 bytes of all text in `messages`, or `None` when the count does
/// not fit in a `usize` (where `total_chars` would overflow).
pub fn total_chars_checked(messages: &[LlmMessage]) -> (r: Option<usize>)
    ensures
        match r {
            Some(n) => n == total_bytes(messages@),
            None => total_bytes(messages@) > usize::MAX,
        },
{
    let mut acc: usize = 0;
    let mut i: usize = 0;
    assert(messages@.take(0) =~= Seq::<LlmMessage>::empty());
    while i < messages.len()
        invariant
            i <= messages@.len(),
            acc == total_bytes(messages@.take(i as int)),
        decreases messages@.len() - i,
    {
        assert(messages@.take(i + 1).drop_last() =~= messages@.take(i as int));
        assert(messages@.take(i + 1).last() == messages@[i as int]);
        let c = &messages[i].content;
        let mut part: usize = 0;
        let mut k: usize = 0;
        assert(c@.take(0) =~= Seq::<ContentPart>::empty());
        while k < c.len()
            invariant
                k <= c@.len(),
                i < messages@.len(),
                c == &messages@[i as int].content,
                acc + part <= usize::MAX,
                acc == total_bytes(messages@.take(i as int)),
                acc + part == total_bytes(messages@.take(i as int)) + content_bytes(c@.take(k as int)),
            decreases c@.len() - k,
        {
            assert(c@.take(k + 1).drop_last() =~= c@.take(k as int));
            assert(c@.take(k + 1).last() == c@[k as int]);
            match &c[k] {
                ContentPart::Text { text } => {
                    let n = utf8_len_exec(&chars_of(text.as_str()));
                    let sum = ((acc as u128) + (part as u128)).checked_add(n);
                    let fits = match sum {
                        Some(t) => t <= usize::MAX as u128,
                        None => false,
                    };
                    if !fits {
                        proof {
                            lemma_content_bytes_prefix(c@, k + 1);
                            lemma_total_bytes_prefix(messages@, i + 1);
                            assert(content_bytes(c@.take(k + 1)) == content_bytes(c@.take(k as int)) + n);
                            assert(messages@.take(i + 1).drop_last() =~= messages@.take(i as int));
                            assert(messages@.take(i + 1).last() == messages@[i as int]);
                            assert(total_bytes(messages@.take(i + 1)) == total_bytes(messages@.take(i as int))
                                + content_bytes(messages@[i as int].content@));
                        }
                        return None;
                    }
                    part = part + n as usize;
                },
                ContentPart::Other => {},
            }
            k = k + 1;
        }
        assert(c@.take(c@.len() as int) =~= c@);
        acc = acc + part;
        i = i + 1;
    }
    assert(messages@.take(messages@.len() as int) =~= messages@);
    Some(acc)
}

/// A prefix of a conversation holds no more text than the whole.
proof fn lemma_total_bytes_prefix(ms: Seq<LlmMessage>, k: int)
    requires
        0 <= k <= ms.len(),
    ensures
        total_bytes(ms.take(k)) <= total_bytes(ms),
    decreases ms.len(),
{
    if k < ms.len() {
        assert(ms.drop_last().take(k) =~= ms.take(k));
        lemma_total_bytes_prefix(ms.drop_last(), k);
    } else {
        assert(ms.take(k) =~= ms);
    }
}

/// Whether the conversation's text is over the threshold.
pub fn needs_compaction(messages: &[LlmMessage], config: &CompactionConfig) -> (r: bool)
    requires
        total_bytes(messages@) <= usize::MAX,
    ensures
        r == (total_bytes(messages@) > config.char_threshold),
{
    total_chars(messages) > config.char_threshold
}

/// The text of one message.
fn message_text_exec(m: &LlmMessage) -> (r: Vec<char>)
    ensures
        r@ == message_text(*m),
{
    let parts = text_parts_exec(&m.content);
    let sep = chars_of("\n");
    join_exec(&parts, &sep)
}

/// The label of a role.
fn role_label_exec(r: Role) -> (s: &'static str)
    ensures
        s@ == role_label(r),
{
    match r {
        Role::User => "User",
        Role::Assistant => "Assistant",
        Role::System => "System",
        Role::Tool => "Tool",
    }
}

/// The summary of the first `split` messages.
fn summary_text_exec(messages: &[LlmMessage], split: usize) -> (r: Vec<char>)
    requires
        split <= messages@.len(),
    ensures
        r@ == summary_text(messages@.take(split as int)),
{
    let mut entries: Vec<Vec<char>> = Vec::new();
    let mut i: usize = 0;
    assert(messages@.take(0) =~= Seq::<LlmMessage>::empty());
    assert(entries@.map_values(|p: Vec<char>| p@) =~= Seq::<Seq<char>>::empty());
    while i < split
        invariant
            i <= split <= messages@.len(),
            entries@.map_values(|p: Vec<char>| p@) == summary_entries(messages@.take(i as int)),
        decreases split - i,
    {
        assert(messages@.take(i + 1).drop_last() =~= messages@.take(i as int));
        assert(messages@.take(i + 1).last() == messages@[i as int]);
        let t = message_text_exec(&messages[i]);
        if t.len() > 0 {
            let mut e = chars_of("[");
            extend_str(&mut e, role_label_exec(messages[i].role));
            extend_str(&mut e, "] ");
            extend_chars(&mut e, &t);
            let ghost before = entries@;
            entries.push(e);
            assert(entries@.map_values(|p: Vec<char>| p@) =~= before.map_values(|p: Vec<char>| p@).push(
                e@,
            ));
        }
        i = i + 1;
    }
    let sep = chars_of("\n\n");
    join_exec(&entries, &sep)
}

/// How many characters of `s` make up its first `n` bytes, if that is a
/// character boundary.
fn utf8_prefix_exec(s: &Vec<char>, n: u128) -> (r: Option<usize>)
    ensures
        match r {
            Some(k) => k <= s@.len() && utf8_len(s@.take(k as int)) == n,
            None => !(exists|k: int| 0 <= k <= s@.len() && utf8_len(s@.take(k)) == n),
        },
{
    let mut acc: u128 = 0;
    let mut i: usize = 0;
    assert(s@.take(0) =~= Seq::<char>::empty());
    while i < s.len()
        invariant
            i <= s@.len(),
            acc == utf8_len(s@.take(i as int)),
            acc <= 4 * i,
            forall|k: int| 0 <= k < i ==> utf8_len(s@.take(k)) != n,
        decreases s@.len() - i,
    {
        if acc == n {
            return Some(i);
        }
        assert(s@.take(i + 1).drop_last() =~= s@.take(i as int));
        let next = acc + utf8_width_exec(s[i]);
        if next > n {
            proof {
                assert forall|k: int| 0 <= k <= s@.len() implies utf8_len(s@.take(k)) != n by {
                    if k > i + 1 {
                        lemma_utf8_prefix_strict(s@, i + 1, k);
                    }
                }
            }
            return None;
        }
        acc = next;
        i = i + 1;
    }
    if acc == n {
        return Some(i);
    }
    proof {
        assert(s@.take(s@.len() as int) =~= s@);
    }
    None
}

/// Whether the summary of the first `split` messages can be cut at the
/// byte limit.
fn cut_ok_exec(summary: &Vec<char>) -> (r: bool)
    ensures
        r == cut_ok(summary@),
{
    let n = utf8_len_exec(summary);
    if n > 8000 {
        utf8_prefix_exec(summary, 8000).is_some()
    } else {
        true
    }
}

/// Whether `compact_messages` can handle `messages`: either nothing is
/// summarized, or the summary can be cut at its byte limit.
pub fn compaction_is_possible(messages: &[LlmMessage], config: &CompactionConfig) -> (r: bool)
    ensures
        r == (messages@.len() <= config.keep_recent || cut_ok(
            summary_text(messages@.take(split_point(messages@, config.keep_recent as nat))),
        )),
{
    if messages.len() <= config.keep_recent {
        return true;
    }
    let split = messages.len() - config.keep_recent;
    let summary = summary_text_exec(messages, split);
    cut_ok_exec(&summary)
}

/// The summary as it goes into the summary message.
fn summary_body_exec(summary: &Vec<char>) -> (r: Vec<char>)
    requires
        cut_ok(summary@),
    ensures
        r@ == summary_body(summary@),
{
    let n = utf8_len_exec(summary);
    if n > 8000 {
        match utf8_prefix_exec(summary, 8000) {
            Some(k) => {
                let mut out = crate::text::slice_chars(summary, 0, k);
                proof {
                    let c = choose|c: int| 0 <= c <= summary@.len() && utf8_len(summary@.take(c)) == summary_limit();
                    if c < k {
                        lemma_utf8_prefix_strict(summary@, c, k as int);
                    } else if c > k {
                        lemma_utf8_prefix_strict(summary@, k as int, c);
                    }
                    assert(out@ =~= cut_prefix(summary@));
                }
                extend_str(&mut out, "...(truncated, ");
                extend_chars(&mut out, &fmt_u128(n));
                extend_str(&mut out, " total chars)");
                out
            },
            None => {
                // ruled out by `cut_ok`
                let mut out: Vec<char> = Vec::new();
                out
            },
        }
    } else {
        let mut out: Vec<char> = Vec::new();
        extend_chars(&mut out, summary);
        assert(out@ =~= summary@);
        out
    }
}

/// Replaces all but the last `keep_recent` messages by one system message
/// summarizing them; a conversation of at most `keep_recent` messages is
/// returned as is.
pub fn compact_messages(messages: &[LlmMessage], config: &CompactionConfig) -> (r: Vec<LlmMessage>)
    requires
        messages@.len() > config.keep_recent ==> cut_ok(
            summary_text(messages@.take(split_point(messages@, config.keep_recent as nat))),
        ),
    ensures
        messages@.len() <= config.keep_recent ==> message_views(r@) == message_views(messages@),
        messages@.len() > config.keep_recent ==> {
            &&& r@.len() == config.keep_recent + 1
            &&& r@[0].role == Role::System
            &&& r@[0].content@.len() == 1
            &&& r@[0].content@[0] matches ContentPart::Text { text } && text@ == summary_message(
                summary_text(messages@.take(split_point(messages@, config.keep_recent as nat))),
            )
            &&& message_views(r@.skip(1)) == message_views(
                messages@.skip(split_point(messages@, config.keep_recent as nat)),
            )
        },
{
    if messages.len() <= config.keep_recent {
        let r = copy_messages(messages, 0);
        assert(messages@.skip(0) =~= messages@);
        return r;
    }
    let split = messages.len() - config.keep_recent;
    let summary = summary_text_exec(messages, split);
    let body = summary_body_exec(&summary);
    let mut text = chars_of("Previous conversation summary (compacted):\n");
    extend_chars(&mut text, &body);
    extend_str(&mut text, "\n\n[End of summary. Recent messages follow.]");
    let ghost summary_v = summary_text(messages@.take(split_point(messages@, config.keep_recent as nat)));
    assert(text@ == summary_message(summary_v));
    let text = string_of(&text);
    let head = LlmMessage::system(text.as_str());
    let mut result: Vec<LlmMessage> = Vec::new();
    result.push(head);
    let mut recent = copy_messages(messages, split);
    let ghost recent_v = recent@;
    result.append(&mut recent);
    assert(result@[0] == head);
    assert(result@.skip(1) =~= recent_v);
    assert(recent_v.len() == message_views(recent_v).len());
    assert(message_views(messages@.skip(split as int)).len() == messages@.skip(split as int).len());
    assert(result@.len() == config.keep_recent + 1);
    result
}

/// A message with text adds one summary entry, after the entries of the
/// messages before it, and that entry names the message's own role:
/// `[User] `, `[Assistant] `, `[System] ` or `[Tool] `, then its text. A
/// message without text adds none.
pub proof fn lemma_summary_entry_names_role(ms: Seq<LlmMessage>, m: LlmMessage)
    ensures
        message_text(m).len() == 0 ==> summary_entries(ms.push(m)) == summary_entries(ms),
        message_text(m).len() > 0 ==> summary_entries(ms.push(m)) == summary_entries(ms).push(
            match m.role {
                Role::User => "[User] "@,
                Role::Assistant => "[Assistant] "@,
                Role::System => "[System] "@,
                Role::Tool => "[Tool] "@,
            } + message_text(m),
        ),
{
    assert(ms.push(m).drop_last() =~= ms);
    reveal_strlit("[");
    reveal_strlit("] ");
    reveal_strlit("User");
    reveal_strlit("Assistant");
    reveal_strlit("System");
    reveal_strlit("Tool");
    reveal_strlit("[User] ");
    reveal_strlit("[Assistant] ");
    reveal_strlit("[System] ");
    reveal_strlit("[Tool] ");
    assert("["@ + "User"@ + "] "@ =~= "[User] "@);
    assert("["@ + "Assistant"@ + "] "@ =~= "[Assistant] "@);
    assert("["@ + "System"@ + "] "@ =~= "[System] "@);
    assert("["@ + "Tool"@ + "] "@ =~= "[Tool] "@);
    let l = "["@ + role_label(m.role) + "] "@;
    assert(l + message_text(m) =~= "["@ + role_label(m.role) + "] "@ + message_text(m));
}

/// Messages of different roles are labelled differently in a summary.
pub proof fn lemma_role_labels_distinct(a: Role, b: Role)
    ensures
        a != b ==> role_label(a) != role_label(b),
{
    reveal_strlit("User");
    reveal_strlit("Assistant");
    reveal_strlit("System");
    reveal_strlit("Tool");
    if a != b {
        assert(role_label(a).len() != role_label(b).len() || role_label(a)[0] != role_label(b)[0]);
    }
}

} // verus!
