//! The error kinds of the orchestrator. A tool failure is not here: it
//! is surfaced to the model as a result with its error flag set.
use vstd::prelude::*;

use crate::conversation::ConversationId;
use crate::workflow::AgentId;

verus! {

/// What can end an agent's turn early. Every kind is fatal for the turn
/// it strikes; siblings of a fan-out run to completion regardless.
#[derive(Debug, Clone, PartialEq, Eq)]
pub enum Error {
    /// The conversation identifier is unknown.
    ConversationNotFound(ConversationId),
    /// The workflow holds no agent under this identifier.
    AgentNotFound(AgentId),
    /// Partial reassembly or embedded-call parsing failed.
    ToolCallParseError(String),
    /// The provider failed upstream.
    ProviderError(String),
    /// A context transform failed.
    TransformError(String),
    /// Recursive dispatch exceeded the configured depth.
    RecursionLimit,
    /// The turn was cancelled; nothing after the signal is emitted.
    Cancelled,
}

impl Error {
    /// A copy of this error with the same content.
    pub fn duplicate(&self) -> (r: Error)
        ensures
            r == *self,
    {
        match self {
            Error::ConversationNotFound(id) => Error::ConversationNotFound(*id),
            Error::AgentNotFound(id) => Error::AgentNotFound(id.duplicate()),
            Error::ToolCallParseError(s) => Error::ToolCallParseError(s.clone()),
            Error::ProviderError(s) => Error::ProviderError(s.clone()),
            Error::TransformError(s) => Error::TransformError(s.clone()),
            Error::RecursionLimit => Error::RecursionLimit,
            Error::Cancelled => Error::Cancelled,
        }
    }
}

} // verus!
