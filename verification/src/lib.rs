//! Core of an agent orchestration engine: events, contexts, workflows,
//! conversations, streamed tool-call assembly, and the per-agent turn loop.
use vstd::prelude::*;

pub mod assembly;
pub mod chat;
pub mod context;
pub mod conversation;
pub mod embedded;
pub mod error;
pub mod event;
pub mod message;
pub mod orch;
pub mod services;
pub mod text;
pub mod tool;
pub mod tool_result;
pub mod views;
pub mod workflow;

verus! {

/// Role tag carried by every transcript message.
#[derive(Clone, Copy, Debug, PartialEq, Eq, Structural)]
pub enum ChatRole {
    System,
    User,
    Assistant,
}

impl ChatRole {
    /// Lower-case wire name of the role.
    pub fn as_str(&self) -> (r: &'static str)
        ensures
            self is System ==> r@ == "system"@,
            self is User ==> r@ == "user"@,
            self is Assistant ==> r@ == "assistant"@,
    {
        match self {
            ChatRole::System => "system",
            ChatRole::User => "user",
            ChatRole::Assistant => "assistant",
        }
    }
}

} // verus!
