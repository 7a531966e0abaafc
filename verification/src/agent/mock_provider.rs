//! A scripted model provider for tests: each streamed call answers with the
//! next prepared sequence of chunks.
use vstd::prelude::*;
use crate::text::{chars_of, extend_chars, extend_str, fmt_u64, owned, string_of};

verus! {

broadcast use vstd::string::group_string_axioms;

/// One piece of a streamed model answer.
#[derive(Debug, Clone)]
pub enum StreamChunk {
    TextDelta { text: String },
    ToolUseStart { id: String, name: String },
    ToolUseDelta { id: String, partial_json: String },
    ToolUseStop { id: String },
    Usage { input_tokens: u64, output_tokens: u64 },
    Done,
}

/// A chunk as a value.
pub enum ChunkView {
    TextDelta { text: Seq<char> },
    ToolUseStart { id: Seq<char>, name: Seq<char> },
    ToolUseDelta { id: Seq<char>, partial_json: Seq<char> },
    ToolUseStop { id: Seq<char> },
    Usage { input_tokens: u64, output_tokens: u64 },
    Done,
}

impl View for StreamChunk {
    type V = ChunkView;

    open spec fn view(&self) -> ChunkView {
        match self {
            StreamChunk::TextDelta { text } => ChunkView::TextDelta { text: text@ },
            StreamChunk::ToolUseStart { id, name } => ChunkView::ToolUseStart { id: id@, name: name@ },
            StreamChunk::ToolUseDelta { id, partial_json } => ChunkView::ToolUseDelta {
                id: id@,
                partial_json: partial_json@,
            },
            StreamChunk::ToolUseStop { id } => ChunkView::ToolUseStop { id: id@ },
            StreamChunk::Usage { input_tokens, output_tokens } => ChunkView::Usage {
                input_tokens: *input_tokens,
                output_tokens: *output_tokens,
            },
            StreamChunk::Done => ChunkView::Done,
        }
    }
}

/// The values of a list of chunks.
pub open spec fn chunk_views(v: Seq<StreamChunk>) -> Seq<ChunkView> {
    v.map_values(|c: StreamChunk| c@)
}

impl StreamChunk {
    /// A copy of this chunk.
    pub fn copy(&self) -> (r: StreamChunk)
        ensures
            r@ == self@,
    {
        match self {
            StreamChunk::TextDelta { text } => StreamChunk::TextDelta { text: text.clone() },
            StreamChunk::ToolUseStart { id, name } => StreamChunk::ToolUseStart { id: id.clone(), name: name.clone() },
            StreamChunk::ToolUseDelta { id, partial_json } => StreamChunk::ToolUseDelta {
                id: id.clone(),
                partial_json: partial_json.clone(),
            },
            StreamChunk::ToolUseStop { id } => StreamChunk::ToolUseStop { id: id.clone() },
            StreamChunk::Usage { input_tokens, output_tokens } => StreamChunk::Usage {
                input_tokens: *input_tokens,
                output_tokens: *output_tokens,
            },
            StreamChunk::Done => StreamChunk::Done,
        }
    }
}

/// Tokens used by one call.
#[derive(Debug, Clone, Copy, PartialEq, Eq, Structural)]
pub struct LlmUsage {
    pub input_tokens: u64,
    pub output_tokens: u64,
}

impl Default for LlmUsage {
    /// No tokens.
    fn default() -> (u: Self)
        ensures
            u.input_tokens == 0 && u.output_tokens == 0,
    {
        LlmUsage { input_tokens: 0, output_tokens: 0 }
    }
}

/// The usage a stream reports: that of its last `Usage` chunk, or none.
pub open spec fn stream_usage(cs: Seq<ChunkView>) -> LlmUsage
    decreases cs.len(),
{
    if cs.len() == 0 {
        LlmUsage { input_tokens: 0, output_tokens: 0 }
    } else {
        match cs.last() {
            ChunkView::Usage { input_tokens, output_tokens } => LlmUsage { input_tokens, output_tokens },
            _ => stream_usage(cs.drop_last()),
        }
    }
}

/// The text of a stream: its text deltas, joined.
pub open spec fn stream_text(cs: Seq<ChunkView>) -> Seq<char>
    decreases cs.len(),
{
    if cs.len() == 0 {
        Seq::empty()
    } else {
        match cs.last() {
            ChunkView::TextDelta { text } => stream_text(cs.drop_last()) + text,
            _ => stream_text(cs.drop_last()),
        }
    }
}

/// A model a provider offers.
#[derive(Debug, Clone)]
pub struct ModelEntry {
    pub id: String,
    pub name: String,
    pub provider: String,
    pub context_window: Option<u64>,
    pub max_output_tokens: Option<u64>,
    pub supports_tools: bool,
    pub supports_vision: bool,
    pub supports_thinking: bool,
}

/// A provider that answers from a script.
#[derive(Debug)]
pub struct MockProvider {
    responses: Vec<Vec<StreamChunk>>,
    call_count: usize,
}

/// The scripted answer of a call that asks for one tool and then replies.
pub open spec fn tool_call_script(name: Seq<char>, input: Seq<char>, final_text: Seq<char>) -> Seq<Seq<ChunkView>> {
    seq![
        seq![
            ChunkView::TextDelta { text: "Let me check that. "@ },
            ChunkView::ToolUseStart { id: "tool_1"@, name },
            ChunkView::ToolUseDelta { id: "tool_1"@, partial_json: input },
            ChunkView::ToolUseStop { id: "tool_1"@ },
            ChunkView::Usage { input_tokens: 100, output_tokens: 50 },
            ChunkView::Done,
        ],
        seq![
            ChunkView::TextDelta { text: final_text },
            ChunkView::Usage { input_tokens: 200, output_tokens: 30 },
            ChunkView::Done,
        ],
    ]
}

impl MockProvider {
    /// The scripted answers, in order.
    pub closed spec fn script(&self) -> Seq<Seq<ChunkView>> {
        self.responses@.map_values(|r: Vec<StreamChunk>| chunk_views(r@))
    }

    /// How many streamed calls were made.
    pub closed spec fn calls(&self) -> nat {
        self.call_count as nat
    }

    /// A provider answering with `responses`, one per call.
    pub fn new(responses: Vec<Vec<StreamChunk>>) -> (p: Self)
        ensures
            p.script() == responses@.map_values(|r: Vec<StreamChunk>| chunk_views(r@)),
            p.calls() == 0,
    {
        MockProvider { responses, call_count: 0 }
    }

    /// A provider that first calls the tool `tool_name` with `tool_input`,
    /// then answers `final_text`.
    pub fn with_tool_call(tool_name: &str, tool_input: &str, final_text: &str) -> (p: Self)
        ensures
            p.script() == tool_call_script(tool_name@, tool_input@, final_text@),
            p.calls() == 0,
    {
        let mut first: Vec<StreamChunk> = Vec::new();
        first.push(StreamChunk::TextDelta { text: owned("Let me check that. ") });
        first.push(StreamChunk::ToolUseStart { id: owned("tool_1"), name: owned(tool_name) });
        first.push(StreamChunk::ToolUseDelta { id: owned("tool_1"), partial_json: owned(tool_input) });
        first.push(StreamChunk::ToolUseStop { id: owned("tool_1") });
        first.push(StreamChunk::Usage { input_tokens: 100, output_tokens: 50 });
        first.push(StreamChunk::Done);
        let mut second: Vec<StreamChunk> = Vec::new();
        second.push(StreamChunk::TextDelta { text: owned(final_text) });
        second.push(StreamChunk::Usage { input_tokens: 200, output_tokens: 30 });
        second.push(StreamChunk::Done);
        let mut responses: Vec<Vec<StreamChunk>> = Vec::new();
        responses.push(first);
        responses.push(second);
        let p = Self::new(responses);
        assert(p.script() =~= tool_call_script(tool_name@, tool_input@, final_text@)) by {
            assert(chunk_views(first@) =~= tool_call_script(tool_name@, tool_input@, final_text@)[0]);
            assert(chunk_views(second@) =~= tool_call_script(tool_name@, tool_input@, final_text@)[1]);
        }
        p
    }

    /// A provider that answers `text` once.
    pub fn simple(text: &str) -> (p: Self)
        ensures
            p.script() == seq![
                seq![
                    ChunkView::TextDelta { text: text@ },
                    ChunkView::Usage { input_tokens: 50, output_tokens: 20 },
                    ChunkView::Done,
                ],
            ],
            p.calls() == 0,
    {
        let mut only: Vec<StreamChunk> = Vec::new();
        only.push(StreamChunk::TextDelta { text: owned(text) });
        only.push(StreamChunk::Usage { input_tokens: 50, output_tokens: 20 });
        only.push(StreamChunk::Done);
        let mut responses: Vec<Vec<StreamChunk>> = Vec::new();
        responses.push(only);
        let p = Self::new(responses);
        assert(p.script() =~= seq![
            seq![
                ChunkView::TextDelta { text: text@ },
                ChunkView::Usage { input_tokens: 50, output_tokens: 20 },
                ChunkView::Done,
            ],
        ]) by {
            assert(chunk_views(only@) =~= seq![
                ChunkView::TextDelta { text: text@ },
                ChunkView::Usage { input_tokens: 50, output_tokens: 20 },
                ChunkView::Done,
            ]);
        }
        p
    }

    /// How many streamed calls were made.
    pub fn call_count(&self) -> (n: usize)
        ensures
            n == self.calls(),
    {
        self.call_count
    }

    /// The provider's kind.
    pub fn provider_type(&self) -> (r: &'static str)
        ensures
            r@ == "mock"@,
    {
        "mock"
    }

    /// The one model it offers: `mock-model`, with a 100 000 token
    /// context, 4 096 output tokens and tools.
    pub fn list_models(&self) -> (r: Vec<ModelEntry>)
        ensures
            r@.len() == 1,
            r@[0].id@ == "mock-model"@,
            r@[0].name@ == "Mock Model"@,
            r@[0].provider@ == "mock"@,
            r@[0].context_window == Some(100_000u64),
            r@[0].max_output_tokens == Some(4_096u64),
            r@[0].supports_tools,
            !r@[0].supports_vision,
            !r@[0].supports_thinking,
    {
        let mut r: Vec<ModelEntry> = Vec::new();
        r.push(ModelEntry {
            id: owned("mock-model"),
            name: owned("Mock Model"),
            provider: owned("mock"),
            context_window: Some(100_000),
            max_output_tokens: Some(4_096),
            supports_tools: true,
            supports_vision: false,
            supports_thinking: false,
        });
        r
    }

    /// The answer to the next streamed call: the next scripted chunks, or
    /// `MockProvider: no more responses (call {n})` once the script is
    /// used up. Every call counts.
    pub fn next_response(&mut self) -> (r: Result<Vec<StreamChunk>, String>)
        requires
            old(self).calls() < usize::MAX,
        ensures
            final(self).calls() == old(self).calls() + 1,
            final(self).script() == old(self).script(),
            match r {
                Ok(cs) => old(self).calls() < old(self).script().len() && chunk_views(cs@) == old(
                    self,
                ).script()[old(self).calls() as int],
                Err(m) => old(self).calls() >= old(self).script().len() && m@
                    == "MockProvider: no more responses (call "@ + crate::text::dec_nat(old(self).calls())
                    + ")"@,
            },
    {
        let idx = self.call_count;
        self.call_count = idx + 1;
        if idx < self.responses.len() {
            let src = &self.responses[idx];
            let mut out: Vec<StreamChunk> = Vec::new();
            let mut k: usize = 0;
            while k < src.len()
                invariant
                    k <= src@.len(),
                    chunk_views(out@) == chunk_views(src@).take(k as int),
                decreases src@.len() - k,
            {
                let ghost before = out@;
                out.push(src[k].copy());
                assert(chunk_views(out@) =~= chunk_views(before).push(src@[k as int]@));
                assert(chunk_views(src@).take(k as int).push(src@[k as int]@) =~= chunk_views(src@).take(k + 1));
                k = k + 1;
            }
            assert(chunk_views(src@).take(src@.len() as int) =~= chunk_views(src@));
            Ok(out)
        } else {
            let mut m = chars_of("MockProvider: no more responses (call ");
            extend_chars(&mut m, &fmt_u64(idx as u64));
            extend_str(&mut m, ")");
            Err(string_of(&m))
        }
    }
}

/// The usage a stream reports: that of its last `Usage` chunk.
pub fn usage_of(chunks: &Vec<StreamChunk>) -> (u: LlmUsage)
    ensures
        u == stream_usage(chunk_views(chunks@)),
{
    let mut u = LlmUsage { input_tokens: 0, output_tokens: 0 };
    let mut k: usize = 0;
    assert(chunk_views(chunks@).take(0) =~= Seq::<ChunkView>::empty());
    while k < chunks.len()
        invariant
            k <= chunks@.len(),
            u == stream_usage(chunk_views(chunks@).take(k as int)),
        decreases chunks@.len() - k,
    {
        assert(chunk_views(chunks@).take(k + 1).drop_last() =~= chunk_views(chunks@).take(k as int));
        assert(chunk_views(chunks@).take(k + 1).last() == chunks@[k as int]@);
        match &chunks[k] {
            StreamChunk::Usage { input_tokens, output_tokens } => {
                u = LlmUsage { input_tokens: *input_tokens, output_tokens: *output_tokens };
            },
            _ => {},
        }
        k = k + 1;
    }
    assert(chunk_views(chunks@).take(chunks@.len() as int) =~= chunk_views(chunks@));
    u
}

/// The text of a stream: its text deltas, joined (what a non-streamed
/// call answers).
pub fn text_of(chunks: &Vec<StreamChunk>) -> (t: String)
    ensures
        t@ == stream_text(chunk_views(chunks@)),
{
    let mut t: Vec<char> = Vec::new();
    let mut k: usize = 0;
    assert(chunk_views(chunks@).take(0) =~= Seq::<ChunkView>::empty());
    while k < chunks.len()
        invariant
            k <= chunks@.len(),
            t@ == stream_text(chunk_views(chunks@).take(k as int)),
        decreases chunks@.len() - k,
    {
        assert(chunk_views(chunks@).take(k + 1).drop_last() =~= chunk_views(chunks@).take(k as int));
        assert(chunk_views(chunks@).take(k + 1).last() == chunks@[k as int]@);
        match &chunks[k] {
            StreamChunk::TextDelta { text } => extend_str(&mut t, text.as_str()),
            _ => {},
        }
        k = k + 1;
    }
    assert(chunk_views(chunks@).take(chunks@.len() as int) =~= chunk_views(chunks@));
    string_of(&t)
}

} // verus!
