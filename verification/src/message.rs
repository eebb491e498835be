//! Role-tagged provider messages: one marker type per role, a generic
//! message parameterised by its role, and an erased sum of the three.
use vstd::prelude::*;

verus! {

/// Marker for the system role.
#[derive(Clone, Copy, Debug, PartialEq, Eq, Structural)]
pub struct System;

/// Marker for the user role.
#[derive(Clone, Copy, Debug, PartialEq, Eq, Structural)]
pub struct User;

/// Marker for the assistant role.
#[derive(Clone, Copy, Debug, PartialEq, Eq, Structural)]
pub struct Assistant;

/// A role marker knows its lower-case wire name.
pub trait Role: Sized {
    fn name() -> (r: String);
}

impl Role for System {
    fn name() -> (r: String)
        ensures
            r@ == "system"@,
    {
        String::from_str("system")
    }
}

impl Role for User {
    fn name() -> (r: String)
        ensures
            r@ == "user"@,
    {
        String::from_str("user")
    }
}

impl Role for Assistant {
    fn name() -> (r: String)
        ensures
            r@ == "assistant"@,
    {
        String::from_str("assistant")
    }
}

/// A single provider message: text content tagged with a role marker.
#[derive(Debug, Clone)]
pub struct Message<R: Role> {
    pub content: String,
    pub role: R,
}

impl Message<System> {
    /// A system message with the given content.
    pub fn system(content: &str) -> (r: Self)
        ensures
            r.content@ == content@,
    {
        Message { content: content.to_owned(), role: System }
    }
}

impl Message<User> {
    /// A user message with the given content.
    pub fn user(content: &str) -> (r: Self)
        ensures
            r.content@ == content@,
    {
        Message { content: content.to_owned(), role: User }
    }
}

impl Message<Assistant> {
    /// An assistant message with the given content.
    pub fn assistant(content: &str) -> (r: Self)
        ensures
            r.content@ == content@,
    {
        Message { content: content.to_owned(), role: Assistant }
    }
}

/// A message of any of the three roles.
#[derive(Debug, Clone)]
pub enum AnyMessage {
    System(Message<System>),
    User(Message<User>),
    Assistant(Message<Assistant>),
}

impl AnyMessage {
    /// The text carried by the message, whatever its role.
    pub fn content(&self) -> (r: &String)
        ensures
            r@ == self.content_view(),
    {
        match self {
            AnyMessage::System(m) => &m.content,
            AnyMessage::User(m) => &m.content,
            AnyMessage::Assistant(m) => &m.content,
        }
    }

    /// The text carried by the message, as a sequence of characters.
    pub open spec fn content_view(&self) -> Seq<char> {
        match self {
            AnyMessage::System(m) => m.content@,
            AnyMessage::User(m) => m.content@,
            AnyMessage::Assistant(m) => m.content@,
        }
    }
}

/// Unique identifier for one use of a tool.
#[derive(Debug, Clone)]
pub struct UseId {
    pub id: String,
}

impl UseId {
    /// Wraps the given identifier.
    pub fn new(id: String) -> (r: UseId)
        ensures
            r.id@ == id@,
    {
        UseId { id }
    }
}

} // verus!
