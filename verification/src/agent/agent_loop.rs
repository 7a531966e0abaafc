//! The agent loop's settings and the events it reports to the interface.
use vstd::prelude::*;

verus! {

/// How the agent loop runs.
#[derive(Debug, Clone, Copy)]
pub struct AgentLoopConfig {
    /// Most rounds of tool calls in one turn (guards against endless loops).
    pub max_iterations: u32,
    /// Whether the tool calls of one round may run together.
    pub concurrent_tools: bool,
    /// Compact the conversation beyond this many tokens.
    pub compaction_threshold: usize,
}

impl Default for AgentLoopConfig {
    /// Fifty rounds, concurrent tools, compaction beyond 160 000 tokens.
    fn default() -> (r: Self)
        ensures
            r.max_iterations == 50,
            r.concurrent_tools,
            r.compaction_threshold == 160_000,
    {
        AgentLoopConfig { max_iterations: 50, concurrent_tools: true, compaction_threshold: 160_000 }
    }
}

/// What the loop reports while it runs.
#[derive(Debug, Clone)]
pub enum AgentEvent {
    /// Streamed model text.
    Token { text: String },
    /// A tool call began.
    ToolStarted { tool_name: String, tool_id: String },
    /// A tool call ended.
    ToolFinished { tool_id: String, success: bool },
    /// Streamed reasoning text.
    Thinking { text: String },
    /// The turn is over.
    Done,
    /// The turn failed.
    Error { message: String },
}

/// The agent loop.
#[derive(Debug)]
pub struct AgentLoop {
    config: AgentLoopConfig,
}

impl AgentLoop {
    /// The settings of the loop.
    pub closed spec fn settings(&self) -> AgentLoopConfig {
        self.config
    }

    /// A loop with `config`.
    pub fn new(config: AgentLoopConfig) -> (r: Self)
        ensures
            r.settings() == config,
    {
        AgentLoop { config }
    }

    /// The settings it was made with.
    pub fn config(&self) -> (c: &AgentLoopConfig)
        ensures
            *c == self.settings(),
    {
        &self.config
    }
}

} // verus!
