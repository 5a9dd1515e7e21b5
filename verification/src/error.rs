//! Errors of an agent session.

use vstd::prelude::*;
use crate::audio::{AudioError, audio_error_text};
use crate::tool::{ToolError, tool_error_text};
use crate::text::{append_str, string_of};

verus! {

/// An error of an agent session. Failures of the language model and of the
/// planner client are carried as their display text.
#[derive(Debug, Clone)]
pub enum AgentError {
    Llm(String),
    Tool(ToolError),
    Client(String),
    TooManyToolCalls,
    Audio(AudioError),
    /// A lock was poisoned by a panic while held.
    Lock(String),
}

/// The display text of an [`AgentError`].
pub open spec fn agent_error_text(e: AgentError) -> Seq<char> {
    match e {
        AgentError::Llm(s) => "llm error: "@ + s@,
        AgentError::Tool(t) => "tool error: "@ + tool_error_text(t),
        AgentError::Client(s) => "client error: "@ + s@,
        AgentError::TooManyToolCalls => "too many tool calls"@,
        AgentError::Audio(a) => "audio error: "@ + audio_error_text(a),
        AgentError::Lock(s) => "lock poisoned: "@ + s@,
    }
}

impl AgentError {
    /// The display text of the error.
    pub fn to_string(&self) -> (s: String)
        ensures
            s@ == agent_error_text(*self),
    {
        let (prefix, rest) = match self {
            AgentError::Llm(m) => ("llm error: ", string_of(m.as_str())),
            AgentError::Tool(t) => ("tool error: ", t.to_string()),
            AgentError::Client(m) => ("client error: ", string_of(m.as_str())),
            AgentError::TooManyToolCalls => {
                return string_of("too many tool calls");
            },
            AgentError::Audio(a) => ("audio error: ", a.to_string()),
            AgentError::Lock(m) => ("lock poisoned: ", string_of(m.as_str())),
        };
        let mut s = string_of(prefix);
        append_str(&mut s, rest.as_str());
        s
    }
}

} // verus!
