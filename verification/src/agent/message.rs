//! Chat messages exchanged with a language model, as the compaction logic
//! reads them: a role and a list of content parts.
use vstd::prelude::*;

verus! {

/// Who wrote a message.
#[derive(Debug, Clone, Copy, PartialEq, Eq, Structural)]
pub enum Role {
    User,
    Assistant,
    System,
    Tool,
}

/// One part of a message's content: text, or anything else the provider
/// carries (images, tool calls), which holds no text.
#[derive(Debug, Clone)]
pub enum ContentPart {
    Text { text: String },
    Other,
}

/// A chat message.
#[derive(Debug, Clone)]
pub struct LlmMessage {
    pub role: Role,
    pub content: Vec<ContentPart>,
}

impl ContentPart {
    /// A copy of this part.
    pub fn copy(&self) -> (r: ContentPart)
        ensures
            r == *self,
    {
        match self {
            ContentPart::Text { text } => ContentPart::Text { text: text.clone() },
            ContentPart::Other => ContentPart::Other,
        }
    }
}

/// A message as a value: its role and its parts.
pub struct MessageView {
    pub role: Role,
    pub content: Seq<ContentPart>,
}

impl View for LlmMessage {
    type V = MessageView;

    open spec fn view(&self) -> MessageView {
        MessageView { role: self.role, content: self.content@ }
    }
}

/// The values of a list of messages.
pub open spec fn message_views(ms: Seq<LlmMessage>) -> Seq<MessageView> {
    ms.map_values(|m: LlmMessage| m@)
}

impl LlmMessage {
    /// A message of one text part.
    pub fn with_text(role: Role, text: &str) -> (r: LlmMessage)
        ensures
            r.role == role,
            r.content@.len() == 1,
            r.content@[0] matches ContentPart::Text { text: t } && t@ == text@,
    {
        let mut content: Vec<ContentPart> = Vec::new();
        content.push(ContentPart::Text { text: crate::text::owned(text) });
        LlmMessage { role, content }
    }

    /// A user message holding `text`.
    pub fn user(text: &str) -> (r: LlmMessage)
        ensures
            r.role == Role::User,
            r.content@.len() == 1,
            r.content@[0] matches ContentPart::Text { text: t } && t@ == text@,
    {
        Self::with_text(Role::User, text)
    }

    /// An assistant message holding `text`.
    pub fn assistant(text: &str) -> (r: LlmMessage)
        ensures
            r.role == Role::Assistant,
            r.content@.len() == 1,
            r.content@[0] matches ContentPart::Text { text: t } && t@ == text@,
    {
        Self::with_text(Role::Assistant, text)
    }

    /// A system message holding `text`.
    pub fn system(text: &str) -> (r: LlmMessage)
        ensures
            r.role == Role::System,
            r.content@.len() == 1,
            r.content@[0] matches ContentPart::Text { text: t } && t@ == text@,
    {
        Self::with_text(Role::System, text)
    }

    /// A copy of this message.
    pub fn copy(&self) -> (r: LlmMessage)
        ensures
            r@ == self@,
    {
        let mut content: Vec<ContentPart> = Vec::new();
        let mut i: usize = 0;
        while i < self.content.len()
            invariant
                i <= self.content@.len(),
                content@ == self.content@.take(i as int),
            decreases self.content@.len() - i,
        {
            content.push(self.content[i].copy());
            assert(self.content@.take(i as int).push(self.content@[i as int]) =~= self.content@.take(i + 1));
            i = i + 1;
        }
        assert(self.content@.take(self.content@.len() as int) =~= self.content@);
        let r = LlmMessage { role: self.role, content };
        assert(r@ == self@);
        r
    }
}

/// Copies of all `messages` from `lo` on.
pub fn copy_messages(messages: &[LlmMessage], lo: usize) -> (r: Vec<LlmMessage>)
    requires
        lo <= messages@.len(),
    ensures
        message_views(r@) == message_views(messages@.skip(lo as int)),
{
    let mut r: Vec<LlmMessage> = Vec::new();
    let mut i: usize = lo;
    while i < messages.len()
        invariant
            lo <= i <= messages@.len(),
            message_views(r@) == message_views(messages@.subrange(lo as int, i as int)),
        decreases messages@.len() - i,
    {
        let ghost before = r@;
        r.push(messages[i].copy());
        assert(messages@.subrange(lo as int, i as int).push(messages@[i as int]) =~= messages@.subrange(
            lo as int,
            i + 1,
        ));
        assert(message_views(r@) =~= message_views(before).push(messages@[i as int]@));
        assert(message_views(messages@.subrange(lo as int, i + 1)) =~= message_views(
            messages@.subrange(lo as int, i as int),
        ).push(messages@[i as int]@));
        i = i + 1;
    }
    assert(messages@.subrange(lo as int, messages@.len() as int) =~= messages@.skip(lo as int));
    r
}

} // verus!
