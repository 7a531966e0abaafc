//! The agent core: the tool loop configuration, chat messages and their
//! compaction, sessions, the persona, and the logic of the built-in tools.

pub mod message;
pub mod compaction;

pub mod tools;
pub mod agent_loop;
pub mod session;
pub mod soul;
pub mod mock_provider;
