//! The agent's persona, as `SOUL.md` sets it.
use vstd::prelude::*;

verus! {

/// Name, manner and language of the agent, and the free text that
/// describes it.
#[derive(Debug, Clone)]
pub struct Soul {
    pub name: String,
    pub style: String,
    pub lang: String,
    pub body: String,
}

impl Default for Soul {
    /// A persona with every field empty.
    fn default() -> (s: Self)
        ensures
            s.name@.len() == 0,
            s.style@.len() == 0,
            s.lang@.len() == 0,
            s.body@.len() == 0,
    {
        Soul { name: String::new(), style: String::new(), lang: String::new(), body: String::new() }
    }
}

} // verus!
