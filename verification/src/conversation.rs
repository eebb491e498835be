//! Durable per-session state: the workflow binding, one context and one
//! turn counter per agent, and the append-only event log; and the store
//! that serves conversations by identifier.
use vstd::prelude::*;

use crate::context::Context;
use crate::event::{spec_event_type, Event, EventType};
use crate::workflow::{AgentId, Workflow};

verus! {

broadcast use crate::views::lemma_vec_deep_view, crate::views::lemma_seq_deep_push, crate::views::lemma_seq_deep_subrange;

/// Identifier of one conversation, minted by the store on creation.
#[derive(Clone, Copy, Debug, PartialEq, Eq, Structural)]
pub struct ConversationId {
    pub id: u64,
}

/// One more than a turn counter, capped at the largest representable
/// value.
pub open spec fn bump(t: u64) -> u64 {
    if t == u64::MAX {
        t
    } else {
        (t + 1) as u64
    }
}

/// Durable state bound to one conversation identifier. Per-agent state
/// sits at the agent's position in the workflow.
#[derive(Debug)]
pub struct Conversation {
    pub id: ConversationId,
    pub workflow: Workflow,
    pub contexts: Vec<Option<Context>>,
    pub turns: Vec<u64>,
    pub events: Vec<Event>,
}

impl Conversation {
    /// Per-agent state runs parallel to the workflow's agent list, and
    /// the workflow's identifiers are unique.
    pub open spec fn wf(&self) -> bool {
        &&& self.contexts@.len() == self.workflow.agents@.len()
        &&& self.turns@.len() == self.workflow.agents@.len()
        &&& self.workflow.wf()
    }

    /// A fresh conversation over the given workflow: no stored contexts,
    /// all turn counters zero, an empty event log.
    pub fn new(id: ConversationId, workflow: Workflow) -> (r: Conversation)
        requires
            workflow.wf(),
        ensures
            r.wf(),
            r.id == id,
            r.workflow == workflow,
            r.events@.len() == 0,
            forall|i: int| 0 <= i < r.turns@.len() ==> r.turns@[i] == 0,
            forall|i: int| 0 <= i < r.contexts@.len() ==> r.contexts@[i] is None,
    {
        let n = workflow.agents.len();
        let mut contexts: Vec<Option<Context>> = Vec::new();
        let mut turns: Vec<u64> = Vec::new();
        let mut i: usize = 0;
        while i < n
            invariant
                0 <= i <= n,
                contexts@.len() == i,
                turns@.len() == i,
                forall|j: int| 0 <= j < i ==> turns@[j] == 0,
                forall|j: int| 0 <= j < i ==> contexts@[j] is None,
            decreases n - i,
        {
            contexts.push(None);
            turns.push(0);
            i += 1;
        }
        Conversation { id, workflow, contexts, turns, events: Vec::new() }
    }

    /// Appends one event to the log; nothing else changes.
    pub fn insert_event(&mut self, event: Event)
        ensures
            final(self).events@ == old(self).events@.push(event),
            final(self).id == old(self).id,
            final(self).workflow == old(self).workflow,
            final(self).contexts == old(self).contexts,
            final(self).turns == old(self).turns,
    {
        self.events.push(event);
    }

    /// Raises the turn counter of the agent at `i` by one; nothing else
    /// changes.
    pub fn inc_turn(&mut self, i: usize)
        requires
            i < old(self).turns@.len(),
        ensures
            final(self).turns@ == old(self).turns@.update(i as int, bump(old(self).turns@[i as int])),
            final(self).id == old(self).id,
            final(self).workflow == old(self).workflow,
            final(self).contexts == old(self).contexts,
            final(self).events == old(self).events,
    {
        let t = self.turns[i];
        let n = if t == u64::MAX {
            t
        } else {
            t + 1
        };
        self.turns.set(i, n);
    }

    /// Stores the context of the agent at `i`; nothing else changes.
    pub fn set_context(&mut self, i: usize, context: Context)
        requires
            i < old(self).contexts@.len(),
        ensures
            final(self).contexts@ == old(self).contexts@.update(i as int, Some(context)),
            final(self).id == old(self).id,
            final(self).workflow == old(self).workflow,
            final(self).turns == old(self).turns,
            final(self).events == old(self).events,
    {
        self.contexts.set(i, Some(context));
    }

    /// The turn counter of the agent at `i`.
    pub fn turn_of(&self, i: usize) -> (r: u64)
        requires
            i < self.turns@.len(),
        ensures
            r == self.turns@[i as int],
    {
        self.turns[i]
    }

    /// The stored context of the agent at `i`, if any.
    pub fn context_of(&self, i: usize) -> (r: &Option<Context>)
        requires
            i < self.contexts@.len(),
        ensures
            r == self.contexts@[i as int],
    {
        &self.contexts[i]
    }

    /// The newest event with the given name, if any.
    pub fn rfind_event(&self, name: &str) -> (r: Option<&Event>)
        ensures
            match r {
                Some(e) => exists|i: int|
                    0 <= i < self.events@.len() && #[trigger] self.events@[i] == *e
                        && self.events@[i].name@ == name@ && (forall|j: int|
                        i < j < self.events@.len() ==> (#[trigger] self.events@[j]).name@ != name@),
                None => forall|j: int|
                    0 <= j < self.events@.len() ==> (#[trigger] self.events@[j]).name@ != name@,
            },
    {
        let mut i: usize = self.events.len();
        while i > 0
            invariant
                0 <= i <= self.events@.len(),
                forall|j: int|
                    i <= j < self.events@.len() ==> (#[trigger] self.events@[j]).name@ != name@,
            decreases i,
        {
            i -= 1;
            if crate::tool::str_equal(self.events[i].name.as_str(), name) {
                return Some(&self.events[i]);
            }
        }
        None
    }

    /// The newest event of the given classification, if any.
    pub fn rfind_event_by_type(&self, t: EventType) -> (r: Option<&Event>)
        ensures
            match r {
                Some(e) => exists|i: int|
                    0 <= i < self.events@.len() && #[trigger] self.events@[i] == *e
                        && spec_event_type(self.events@[i].name@) == t && (forall|j: int|
                        i < j < self.events@.len() ==> spec_event_type(
                            (#[trigger] self.events@[j]).name@,
                        ) != t),
                None => forall|j: int|
                    0 <= j < self.events@.len() ==> spec_event_type(
                        (#[trigger] self.events@[j]).name@,
                    ) != t,
            },
    {
        let mut i: usize = self.events.len();
        while i > 0
            invariant
                0 <= i <= self.events@.len(),
                forall|j: int|
                    i <= j < self.events@.len() ==> spec_event_type(
                        (#[trigger] self.events@[j]).name@,
                    ) != t,
            decreases i,
        {
            i -= 1;
            if self.events[i].event_type() == t {
                return Some(&self.events[i]);
            }
        }
        None
    }
}

/// An in-memory conversation service: serves, creates and mutates
/// conversations by identifier, each operation atomic on one entry.
#[derive(Debug)]
pub struct ConversationStore {
    pub conversations: Vec<Conversation>,
    pub next: u64,
}

impl ConversationStore {
    /// Every held conversation is well formed, identifiers are unique,
    /// and every identifier is below the next one to be minted.
    pub open spec fn wf(&self) -> bool {
        &&& forall|i: int|
            0 <= i < self.conversations@.len() ==> (#[trigger] self.conversations@[i]).wf()
        &&& forall|i: int|
            0 <= i < self.conversations@.len() ==> (#[trigger] self.conversations@[i]).id.id
                < self.next
        &&& forall|i: int, j: int|
            0 <= i < j < self.conversations@.len() ==> (#[trigger] self.conversations@[i]).id != (
            #[trigger] self.conversations@[j]).id
    }

    /// An empty store.
    pub fn new() -> (r: ConversationStore)
        ensures
            r.wf(),
            r.conversations@.len() == 0,
    {
        ConversationStore { conversations: Vec::new(), next: 0 }
    }

    /// The position of the conversation with the given identifier.
    pub fn find(&self, id: ConversationId) -> (r: Option<usize>)
        ensures
            match r {
                Some(i) => i < self.conversations@.len() && self.conversations@[i as int].id == id,
                None => forall|j: int|
                    0 <= j < self.conversations@.len() ==> (#[trigger] self.conversations@[j]).id
                        != id,
            },
    {
        let mut i: usize = 0;
        while i < self.conversations.len()
            invariant
                0 <= i <= self.conversations@.len(),
                forall|j: int| 0 <= j < i ==> (#[trigger] self.conversations@[j]).id != id,
            decreases self.conversations@.len() - i,
        {
            if self.conversations[i].id.id == id.id {
                return Some(i);
            }
            i += 1;
        }
        None
    }

    /// Creates a conversation over the given workflow and returns its
    /// fresh identifier.
    pub fn create(&mut self, workflow: Workflow) -> (r: ConversationId)
        requires
            old(self).wf(),
            workflow.wf(),
            old(self).next < u64::MAX,
        ensures
            final(self).wf(),
            final(self).conversations@ == old(self).conversations@.push(
                final(self).conversations@.last(),
            ),
            final(self).conversations@.last().id == r,
            final(self).conversations@.last().workflow == workflow,
            final(self).conversations@.last().events@.len() == 0,
            forall|j: int|
                0 <= j < old(self).conversations@.len() ==> (#[trigger] old(
                    self,
                ).conversations@[j]).id != r,
    {
        let id = ConversationId { id: self.next };
        let conversation = Conversation::new(id, workflow);
        self.conversations.push(conversation);
        self.next = self.next + 1;
        id
    }
}

} // verus!
