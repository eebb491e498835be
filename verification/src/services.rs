//! The outside collaborators as the engine sees them: a provider whose
//! replies arrive as data, a tool service whose results arrive as data,
//! a template renderer and a suggestion source. Each reply is consumed
//! in order, so a whole turn is a deterministic function of its inputs.
use vstd::prelude::*;

use crate::chat::{ChatCompletionMessage, ChatMsgV, ToolCallPart};
use crate::event::Event;
use crate::tool::{ToolCallFull, ToolDefinition};
use crate::tool_result::ToolResult;
use crate::workflow::Template;

verus! {

broadcast use crate::views::lemma_vec_deep_view, crate::views::lemma_seq_deep_push, crate::views::lemma_seq_deep_subrange;

/// One suggestion a search returned.
#[derive(Debug, Clone, PartialEq, Eq)]
pub struct Suggestion {
    pub suggestion: String,
}

/// Environment metadata injected into system-prompt templates.
#[derive(Debug, Clone, PartialEq, Eq)]
pub struct SystemContext {
    pub tool_supported: Option<bool>,
    pub tool_information: String,
}

impl SystemContext {
    /// A context that knows nothing yet.
    pub fn new() -> (r: SystemContext)
        ensures
            r.tool_supported is None,
            r.tool_information@ == Seq::<char>::empty(),
    {
        SystemContext { tool_supported: None, tool_information: String::new() }
    }

    /// This context, carrying the given tool usage information.
    pub fn tool_information(self, info: String) -> (r: SystemContext)
        ensures
            r.tool_supported == self.tool_supported,
            r.tool_information@ == info@,
    {
        SystemContext { tool_information: info, ..self }
    }

    /// A copy of this context with the same content.
    pub fn duplicate(&self) -> (r: SystemContext)
        ensures
            r == *self,
    {
        SystemContext {
            tool_supported: self.tool_supported,
            tool_information: self.tool_information.clone(),
        }
    }
}

/// What the user-prompt template is rendered against: the dispatch event
/// and, when asked for, suggestions.
#[derive(Debug, Clone, PartialEq, Eq)]
pub struct UserContext {
    pub event: Event,
    pub suggestions: Vec<String>,
}

impl UserContext {
    /// A context carrying the dispatch event and no suggestions.
    pub fn new(event: Event) -> (r: UserContext)
        ensures
            r.event == event,
            r.suggestions@.len() == 0,
    {
        UserContext { event, suggestions: Vec::new() }
    }

    /// This context, enriched with suggestions.
    pub fn suggestions(self, suggestions: Vec<String>) -> (r: UserContext)
        ensures
            r.event == self.event,
            r.suggestions == suggestions,
    {
        UserContext { suggestions, ..self }
    }
}

/// One scripted tool outcome: the JSON text handed back and whether the
/// tool failed.
#[derive(Debug, Clone, PartialEq, Eq)]
pub struct ToolReply {
    pub content: String,
    pub is_error: bool,
}

/// One scripted provider outcome: a whole stream, a stream cut short by
/// cancellation after the given chunks, or an upstream failure.
#[derive(Debug, Clone, PartialEq, Eq)]
pub enum ProviderReply {
    Stream(Vec<ChatCompletionMessage>),
    Cancelled(Vec<ChatCompletionMessage>),
    Failure(String),
}

/// Mathematical content of one scripted provider outcome.
pub ghost enum ProviderReplyV {
    Stream(Seq<ChatMsgV>),
    Cancelled(Seq<ChatMsgV>),
    Failure(Seq<char>),
}

impl DeepView for ProviderReply {
    type V = ProviderReplyV;

    open spec fn deep_view(&self) -> ProviderReplyV {
        match self {
            ProviderReply::Stream(v) => ProviderReplyV::Stream(v.deep_view()),
            ProviderReply::Cancelled(v) => ProviderReplyV::Cancelled(v.deep_view()),
            ProviderReply::Failure(s) => ProviderReplyV::Failure(s@),
        }
    }
}

impl ToolCallPart {
    /// A copy of this entry with the same content.
    pub fn duplicate(&self) -> (r: ToolCallPart)
        ensures
            r.deep_view() == self.deep_view(),
    {
        match self {
            ToolCallPart::Full(c) => ToolCallPart::Full(c.duplicate()),
            ToolCallPart::Partial(p) => ToolCallPart::Partial(p.duplicate()),
        }
    }
}

impl ChatCompletionMessage {
    /// A copy of this record with the same content.
    pub fn duplicate(&self) -> (r: ChatCompletionMessage)
        ensures
            r.deep_view() == self.deep_view(),
    {
        let mut parts: Vec<ToolCallPart> = Vec::new();
        let mut i: usize = 0;
        while i < self.tool_call.len()
            invariant
                0 <= i <= self.tool_call@.len(),
                parts.deep_view() =~~= self.tool_call.deep_view().subrange(0, i as int),
            decreases self.tool_call@.len() - i,
        {
            parts.push(self.tool_call[i].duplicate());
            i += 1;
        }
        let r = ChatCompletionMessage {
            content: match &self.content {
                Some(c) => Some(c.clone()),
                None => None,
            },
            tool_call: parts,
            usage: self.usage,
        };
        proof {
            assert(r.tool_call.deep_view() =~~= self.tool_call.deep_view());
        }
        r
    }
}

/// Copies a whole stream of records.
pub fn duplicate_stream(ms: &Vec<ChatCompletionMessage>) -> (r: Vec<ChatCompletionMessage>)
    ensures
        r.deep_view() == ms.deep_view(),
{
    let mut out: Vec<ChatCompletionMessage> = Vec::new();
    let mut i: usize = 0;
    while i < ms.len()
        invariant
            0 <= i <= ms@.len(),
            out.deep_view() =~~= ms.deep_view().subrange(0, i as int),
        decreases ms@.len() - i,
    {
        out.push(ms[i].duplicate());
        i += 1;
    }
    proof {
        assert(out.deep_view() =~~= ms.deep_view());
    }
    out
}

/// The scripts that stand in for the outside services, each consumed
/// front to back.
#[derive(Debug, Clone, PartialEq, Eq)]
pub struct Services {
    pub provider_replies: Vec<ProviderReply>,
    pub provider_at: usize,
    pub tool_replies: Vec<ToolReply>,
    pub tool_at: usize,
    pub renders: Vec<String>,
    pub render_at: usize,
    pub tools: Vec<ToolDefinition>,
    pub tool_supported: bool,
    pub suggestions: Vec<Suggestion>,
}

/// The scripts are the same and no cursor moved backwards: what one call
/// leaves for the next.
pub open spec fn services_advance(pre: Services, post: Services) -> bool {
    &&& post.provider_replies == pre.provider_replies
    &&& post.tool_replies == pre.tool_replies
    &&& post.renders == pre.renders
    &&& post.tools == pre.tools
    &&& post.tool_supported == pre.tool_supported
    &&& post.suggestions == pre.suggestions
    &&& pre.provider_at <= post.provider_at
    &&& pre.tool_at <= post.tool_at
    &&& pre.render_at <= post.render_at
}

/// What a rendering call returns: the next scripted rendering if one is
/// left, the given fallback otherwise.
pub open spec fn spec_rendered(s: Services, fallback: Seq<char>) -> Seq<char> {
    if s.render_at < s.renders@.len() {
        s.renders@[s.render_at as int]@
    } else {
        fallback
    }
}

impl Services {
    /// Every cursor sits at or before the end of its script.
    pub open spec fn wf(&self) -> bool {
        &&& self.provider_at <= self.provider_replies@.len()
        &&& self.tool_at <= self.tool_replies@.len()
        &&& self.render_at <= self.renders@.len()
    }

    /// Services with the given scripts, nothing consumed yet.
    pub fn new(
        provider_replies: Vec<ProviderReply>,
        tool_replies: Vec<ToolReply>,
        renders: Vec<String>,
        tools: Vec<ToolDefinition>,
        tool_supported: bool,
        suggestions: Vec<Suggestion>,
    ) -> (r: Services)
        ensures
            r.wf(),
            r.provider_replies == provider_replies,
            r.tool_replies == tool_replies,
            r.renders == renders,
            r.tools == tools,
            r.tool_supported == tool_supported,
            r.suggestions == suggestions,
            r.provider_at == 0 && r.tool_at == 0 && r.render_at == 0,
    {
        Services {
            provider_replies,
            provider_at: 0,
            tool_replies,
            tool_at: 0,
            renders,
            render_at: 0,
            tools,
            tool_supported,
            suggestions,
        }
    }

    /// The next scripted provider outcome, or nothing when the script is
    /// spent.
    pub fn next_provider(&mut self) -> (r: Option<ProviderReply>)
        requires
            old(self).wf(),
        ensures
            final(self).wf(),
            services_advance(*old(self), *final(self)),
            final(self).tool_at == old(self).tool_at,
            final(self).render_at == old(self).render_at,
            (match r {
                Some(reply) => {
                    &&& old(self).provider_at < old(self).provider_replies@.len()
                    &&& final(self).provider_at == old(self).provider_at + 1
                    &&& reply.deep_view() == old(self).provider_replies.deep_view()[old(
                        self,
                    ).provider_at as int]
                },
                None => {
                    &&& old(self).provider_at == old(self).provider_replies@.len()
                    &&& final(self).provider_at == old(self).provider_at
                },
            }),
    {
        if self.provider_at >= self.provider_replies.len() {
            return None;
        }
        let at = self.provider_at;
        self.provider_at = at + 1;
        let r = match &self.provider_replies[at] {
            ProviderReply::Stream(v) => ProviderReply::Stream(duplicate_stream(v)),
            ProviderReply::Cancelled(v) => ProviderReply::Cancelled(duplicate_stream(v)),
            ProviderReply::Failure(s) => ProviderReply::Failure(s.clone()),
        };
        proof {
            assert(self.provider_replies.deep_view()[at as int]
                == self.provider_replies@[at as int].deep_view());
        }
        Some(r)
    }

    /// The result of one tool call: the next scripted outcome, or a
    /// failure result when the script is spent, stamped with the call's
    /// name and identifier either way.
    pub fn call_tool(&mut self, call: &ToolCallFull) -> (r: ToolResult)
        requires
            old(self).wf(),
        ensures
            final(self).wf(),
            services_advance(*old(self), *final(self)),
            final(self).provider_at == old(self).provider_at,
            final(self).render_at == old(self).render_at,
            r.name == call.name,
            r.call_id == call.call_id,
            old(self).tool_at < old(self).tool_replies@.len() ==> {
                &&& final(self).tool_at == old(self).tool_at + 1
                &&& r.content@ == old(self).tool_replies@[old(self).tool_at as int].content@
                &&& r.is_error == old(self).tool_replies@[old(self).tool_at as int].is_error
            },
            old(self).tool_at == old(self).tool_replies@.len() ==> final(self).tool_at == old(
                self,
            ).tool_at && r.is_error,
    {
        let name = call.name.duplicate();
        let call_id = crate::tool::duplicate_call_id(&call.call_id);
        if self.tool_at < self.tool_replies.len() {
            let at = self.tool_at;
            self.tool_at = at + 1;
            ToolResult {
                name,
                call_id,
                content: self.tool_replies[at].content.clone(),
                is_error: self.tool_replies[at].is_error,
            }
        } else {
            ToolResult {
                name,
                call_id,
                content: String::from_str("the tool service is unavailable"),
                is_error: true,
            }
        }
    }

    /// The rendering of a system-prompt template against the system
    /// context: the next scripted rendering, or the template's text with
    /// the tool information appended when the script is spent.
    pub fn render_system(&mut self, template: &Template, sc: &SystemContext) -> (r: String)
        requires
            old(self).wf(),
        ensures
            final(self).wf(),
            services_advance(*old(self), *final(self)),
            final(self).provider_at == old(self).provider_at,
            final(self).tool_at == old(self).tool_at,
            old(self).render_at < old(self).renders@.len() ==> {
                &&& final(self).render_at == old(self).render_at + 1
                &&& r@ == old(self).renders@[old(self).render_at as int]@
            },
            old(self).render_at == old(self).renders@.len() ==> final(self).render_at == old(
                self,
            ).render_at && r@ == template@ + sc.tool_information@,
    {
        if self.render_at < self.renders.len() {
            let at = self.render_at;
            self.render_at = at + 1;
            self.renders[at].clone()
        } else {
            let mut out = template.text.clone();
            out.append(sc.tool_information.as_str());
            out
        }
    }

    /// The rendering of a user-prompt template against the user context:
    /// the next scripted rendering, or the template's text with the
    /// event's value appended when the script is spent.
    pub fn render_user(&mut self, template: &Template, u: &UserContext) -> (r: String)
        requires
            old(self).wf(),
        ensures
            final(self).wf(),
            services_advance(*old(self), *final(self)),
            final(self).provider_at == old(self).provider_at,
            final(self).tool_at == old(self).tool_at,
            old(self).render_at < old(self).renders@.len() ==> {
                &&& final(self).render_at == old(self).render_at + 1
                &&& r@ == old(self).renders@[old(self).render_at as int]@
            },
            old(self).render_at == old(self).renders@.len() ==> final(self).render_at == old(
                self,
            ).render_at && r@ == template@ + u.event.value@,
    {
        if self.render_at < self.renders.len() {
            let at = self.render_at;
            self.render_at = at + 1;
            self.renders[at].clone()
        } else {
            let mut out = template.text.clone();
            out.append(u.event.value.as_str());
            out
        }
    }

}

} // verus!
