//! Browser automation logic: actions and their validation, tab pool,
//! cookies, history, user agents, Google sign-in routing and the
//! JavaScript snippets sent to the web view.

pub mod actions;
pub mod user_agent;
pub mod auth_router;
pub mod js;
pub mod cookie;
pub mod tab_pool;
pub mod history;
