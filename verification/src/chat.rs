//! What flows on the provider stream and to the progress sink: streamed
//! completion chunks, the responses the orchestrator emits, and the user
//! request that starts a turn.
use vstd::prelude::*;

use crate::conversation::ConversationId;
use crate::event::Event;
use crate::tool::{ToolCallFull, ToolCallPartial, ToolCallV};
use crate::tool_result::{tool_result_view, ToolResult, ToolResultV};
use crate::workflow::AgentId;

verus! {

/// Token accounting reported by the provider for one stream.
#[derive(Clone, Copy, Debug, PartialEq, Eq, Structural)]
pub struct Usage {
    pub prompt_tokens: u64,
    pub completion_tokens: u64,
}

/// Mathematical content of a streamed tool-call fragment.
pub ghost struct PartialV {
    pub index: int,
    pub name: Option<Seq<char>>,
    pub call_id: Option<Seq<char>>,
    pub fragment: Seq<char>,
}

impl DeepView for ToolCallPartial {
    type V = PartialV;

    open spec fn deep_view(&self) -> PartialV {
        PartialV {
            index: self.index as int,
            name: match self.name {
                Some(n) => Some(n@),
                None => None,
            },
            call_id: crate::tool::call_id_view(self.call_id),
            fragment: self.arguments_fragment@,
        }
    }
}

impl ToolCallPartial {
    /// A copy of this fragment with the same content.
    pub fn duplicate(&self) -> (r: ToolCallPartial)
        ensures
            r.deep_view() == self.deep_view(),
    {
        ToolCallPartial {
            index: self.index,
            name: match &self.name {
                Some(n) => Some(n.duplicate()),
                None => None,
            },
            call_id: crate::tool::duplicate_call_id(&self.call_id),
            arguments_fragment: self.arguments_fragment.clone(),
        }
    }
}

/// One entry of a streamed message: a whole tool call, or a fragment.
#[derive(Debug, Clone, PartialEq, Eq)]
pub enum ToolCallPart {
    Full(ToolCallFull),
    Partial(ToolCallPartial),
}

/// Mathematical content of one tool-call entry.
pub ghost enum PartV {
    Full(ToolCallV),
    Partial(PartialV),
}

impl DeepView for ToolCallPart {
    type V = PartV;

    open spec fn deep_view(&self) -> PartV {
        match self {
            ToolCallPart::Full(c) => PartV::Full(c@),
            ToolCallPart::Partial(p) => PartV::Partial(p.deep_view()),
        }
    }
}

/// One record of a provider stream: optional text, tool-call entries,
/// and an optional usage report.
#[derive(Debug, Clone, PartialEq, Eq)]
pub struct ChatCompletionMessage {
    pub content: Option<String>,
    pub tool_call: Vec<ToolCallPart>,
    pub usage: Option<Usage>,
}

/// Mathematical content of one streamed record.
pub ghost struct ChatMsgV {
    pub content: Option<Seq<char>>,
    pub tool_call: Seq<PartV>,
    pub usage: Option<Usage>,
}

impl DeepView for ChatCompletionMessage {
    type V = ChatMsgV;

    open spec fn deep_view(&self) -> ChatMsgV {
        ChatMsgV {
            content: match &self.content {
                Some(c) => Some(c@),
                None => None,
            },
            tool_call: self.tool_call.deep_view(),
            usage: self.usage,
        }
    }
}

impl ChatCompletionMessage {
    /// A record carrying only text.
    pub fn text(content: String) -> (r: ChatCompletionMessage)
        ensures
            r.deep_view() == (ChatMsgV {
                content: Some(content@),
                tool_call: Seq::<PartV>::empty(),
                usage: None,
            }),
    {
        let r = ChatCompletionMessage { content: Some(content), tool_call: Vec::new(), usage: None };
        proof {
            assert(r.tool_call.deep_view() =~= Seq::<PartV>::empty());
        }
        r
    }

    /// A record carrying only a usage report.
    pub fn usage(usage: Usage) -> (r: ChatCompletionMessage)
        ensures
            r.deep_view() == (ChatMsgV {
                content: None,
                tool_call: Seq::<PartV>::empty(),
                usage: Some(usage),
            }),
    {
        let r = ChatCompletionMessage { content: None, tool_call: Vec::new(), usage: Some(usage) };
        proof {
            assert(r.tool_call.deep_view() =~= Seq::<PartV>::empty());
        }
        r
    }
}

/// Mathematical content of an event.
pub ghost struct EventV {
    pub id: u64,
    pub name: Seq<char>,
    pub value: Seq<char>,
    pub timestamp: u64,
}

impl DeepView for Event {
    type V = EventV;

    open spec fn deep_view(&self) -> EventV {
        EventV { id: self.id, name: self.name@, value: self.value@, timestamp: self.timestamp }
    }
}

/// One response the orchestrator emits to the progress sink.
#[derive(Debug, Clone, PartialEq, Eq)]
pub enum ChatResponse {
    Text(String),
    Usage(Usage),
    ToolCallStart(ToolCallFull),
    ToolCallEnd(ToolResult),
    Custom(Event),
}

/// Mathematical content of one emitted response.
pub ghost enum ChatRespV {
    Text(Seq<char>),
    Usage(Usage),
    ToolCallStart(ToolCallV),
    ToolCallEnd(ToolResultV),
    Custom(EventV),
}

impl DeepView for ChatResponse {
    type V = ChatRespV;

    open spec fn deep_view(&self) -> ChatRespV {
        match self {
            ChatResponse::Text(s) => ChatRespV::Text(s@),
            ChatResponse::Usage(u) => ChatRespV::Usage(*u),
            ChatResponse::ToolCallStart(c) => ChatRespV::ToolCallStart(c@),
            ChatResponse::ToolCallEnd(t) => ChatRespV::ToolCallEnd(tool_result_view(*t)),
            ChatResponse::Custom(e) => ChatRespV::Custom(e.deep_view()),
        }
    }
}

/// A response wrapped with the identifier of the agent that emitted it.
#[derive(Debug, Clone, PartialEq, Eq)]
pub struct AgentMessage<T> {
    pub agent: AgentId,
    pub message: T,
}

/// Mathematical content of a wrapped response.
pub ghost struct AgentMsgV<V> {
    pub agent: Seq<char>,
    pub message: V,
}

impl<T: DeepView> DeepView for AgentMessage<T> {
    type V = AgentMsgV<T::V>;

    open spec fn deep_view(&self) -> AgentMsgV<T::V> {
        AgentMsgV { agent: self.agent@, message: self.message.deep_view() }
    }
}

/// One user request: its text and the conversation it belongs to.
#[derive(Debug, Clone, PartialEq, Eq)]
pub struct ChatRequest {
    pub content: String,
    pub conversation_id: ConversationId,
}

impl ChatRequest {
    /// A request with the given text for the given conversation.
    pub fn new(content: String, conversation_id: ConversationId) -> (r: ChatRequest)
        ensures
            r.content@ == content@,
            r.conversation_id == conversation_id,
    {
        ChatRequest { content, conversation_id }
    }
}

/// The sink responses that one streamed record gives rise to: its text
/// chunk, then its usage report.
pub open spec fn chunk_responses(m: ChatMsgV) -> Seq<ChatRespV> {
    (match m.content {
        Some(c) => seq![ChatRespV::Text(c)],
        None => Seq::empty(),
    }) + (match m.usage {
        Some(u) => seq![ChatRespV::Usage(u)],
        None => Seq::empty(),
    })
}

/// The sink responses of the first `i` records of a stream, in order.
pub open spec fn stream_responses_upto(ms: Seq<ChatMsgV>, i: int) -> Seq<ChatRespV>
    decreases i,
{
    if i <= 0 || i > ms.len() {
        Seq::empty()
    } else {
        stream_responses_upto(ms, i - 1) + chunk_responses(ms[i - 1])
    }
}

/// The sink responses of a whole stream, in order.
pub open spec fn stream_responses(ms: Seq<ChatMsgV>) -> Seq<ChatRespV> {
    stream_responses_upto(ms, ms.len() as int)
}

} // verus!
