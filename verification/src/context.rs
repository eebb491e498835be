//! The provider-visible transcript: role-tagged messages, attached tool
//! definitions, and the shape a successful turn leaves it in.
use vstd::prelude::*;

use crate::tool::{ToolCallFull, ToolCallV, ToolDefV, ToolDefinition};
use crate::tool_result::{tool_result_view, ToolResult, ToolResultV};
use crate::ChatRole;

verus! {

broadcast use crate::views::lemma_vec_deep_view, crate::views::lemma_seq_deep_push, crate::views::lemma_seq_deep_subrange;

/// One transcript entry: either role-tagged text (an assistant entry may
/// carry tool calls), or the result of one executed tool call.
#[derive(Debug, Clone, PartialEq, Eq)]
pub enum ContextMessage {
    Content { role: ChatRole, content: String, tool_calls: Vec<ToolCallFull> },
    Tool { result: ToolResult },
}

/// Mathematical content of one transcript entry.
pub ghost enum CtxMsgV {
    Content { role: ChatRole, content: Seq<char>, tool_calls: Seq<ToolCallV> },
    Tool { result: ToolResultV },
}

impl DeepView for ContextMessage {
    type V = CtxMsgV;

    open spec fn deep_view(&self) -> CtxMsgV {
        match self {
            ContextMessage::Content { role, content, tool_calls } => CtxMsgV::Content {
                role: *role,
                content: content@,
                tool_calls: tool_calls.deep_view(),
            },
            ContextMessage::Tool { result } => CtxMsgV::Tool { result: tool_result_view(*result) },
        }
    }
}

impl ContextMessage {
    /// A system entry.
    pub fn system(content: String) -> (r: ContextMessage)
        ensures
            r.deep_view() == (CtxMsgV::Content {
                role: ChatRole::System,
                content: content@,
                tool_calls: Seq::<ToolCallV>::empty(),
            }),
    {
        let r = ContextMessage::Content {
            role: ChatRole::System,
            content,
            tool_calls: Vec::new(),
        };
        proof {
            assert(match r {
                ContextMessage::Content { tool_calls, .. } => tool_calls.deep_view()
                    =~= Seq::<ToolCallV>::empty(),
                _ => false,
            });
        }
        r
    }

    /// A user entry.
    pub fn user(content: String) -> (r: ContextMessage)
        ensures
            r.deep_view() == (CtxMsgV::Content {
                role: ChatRole::User,
                content: content@,
                tool_calls: Seq::<ToolCallV>::empty(),
            }),
    {
        let r = ContextMessage::Content { role: ChatRole::User, content, tool_calls: Vec::new() };
        proof {
            assert(match r {
                ContextMessage::Content { tool_calls, .. } => tool_calls.deep_view()
                    =~= Seq::<ToolCallV>::empty(),
                _ => false,
            });
        }
        r
    }

    /// An assistant entry carrying the joined text and the tool calls of
    /// one completed provider response.
    pub fn assistant(content: String, tool_calls: Vec<ToolCallFull>) -> (r: ContextMessage)
        ensures
            r.deep_view() == (CtxMsgV::Content {
                role: ChatRole::Assistant,
                content: content@,
                tool_calls: tool_calls.deep_view(),
            }),
    {
        ContextMessage::Content { role: ChatRole::Assistant, content, tool_calls }
    }

    /// A tool-result entry.
    pub fn tool_result(result: ToolResult) -> (r: ContextMessage)
        ensures
            r.deep_view() == (CtxMsgV::Tool { result: tool_result_view(result) }),
    {
        ContextMessage::Tool { result }
    }

    /// A copy of this entry with the same content.
    pub fn duplicate(&self) -> (r: ContextMessage)
        ensures
            r.deep_view() == self.deep_view(),
    {
        match self {
            ContextMessage::Content { role, content, tool_calls } => {
                let mut calls: Vec<ToolCallFull> = Vec::new();
                let mut i: usize = 0;
                while i < tool_calls.len()
                    invariant
                        0 <= i <= tool_calls@.len(),
                        calls.deep_view() =~~= tool_calls.deep_view().subrange(0, i as int),
                    decreases tool_calls@.len() - i,
                {
                    calls.push(tool_calls[i].duplicate());
                    i += 1;
                }
                let r = ContextMessage::Content {
                    role: *role,
                    content: content.clone(),
                    tool_calls: calls,
                };
                proof {
                    assert(match r {
                        ContextMessage::Content { tool_calls: tc, .. } => tc.deep_view()
                            =~~= tool_calls.deep_view(),
                        _ => false,
                    });
                }
                r
            },
            ContextMessage::Tool { result } => ContextMessage::Tool {
                result: result.duplicate(),
            },
        }
    }
}

/// Mathematical content of a context.
pub ghost struct ContextV {
    pub messages: Seq<CtxMsgV>,
    pub tools: Seq<ToolDefV>,
}

/// The transcript one model call sees: ordered messages and the tool
/// schemas attached for structured tool use.
#[derive(Debug, Clone, PartialEq, Eq)]
pub struct Context {
    pub messages: Vec<ContextMessage>,
    pub tools: Vec<ToolDefinition>,
}

impl DeepView for Context {
    type V = ContextV;

    open spec fn deep_view(&self) -> ContextV {
        ContextV { messages: self.messages.deep_view(), tools: self.tools.deep_view() }
    }
}

/// Whether a message is text with the given role.
pub open spec fn msg_has_role(m: CtxMsgV, role: ChatRole) -> bool {
    match m {
        CtxMsgV::Content { role: r, .. } => r == role,
        CtxMsgV::Tool { .. } => false,
    }
}

/// The tool calls carried by a message; empty for a tool result.
pub open spec fn msg_tool_calls(m: CtxMsgV) -> Seq<ToolCallV> {
    match m {
        CtxMsgV::Content { tool_calls, .. } => tool_calls,
        CtxMsgV::Tool { .. } => Seq::empty(),
    }
}

/// Whether `m` is the result of one of the calls carried by `a`: a call
/// with the same tool name and the same call identifier.
pub open spec fn msg_answers(m: CtxMsgV, a: CtxMsgV) -> bool {
    match m {
        CtxMsgV::Tool { result } => exists|i: int|
            0 <= i < msg_tool_calls(a).len() && (#[trigger] msg_tool_calls(a)[i]).name
                == result.name && msg_tool_calls(a)[i].call_id == result.call_id,
        CtxMsgV::Content { .. } => false,
    }
}

/// The shape a successfully completed turn leaves a transcript in: an
/// assistant message followed only by results of the calls it carries.
pub open spec fn tail_shape(ms: Seq<CtxMsgV>) -> bool {
    exists|k: int|
        0 <= k < ms.len() && msg_has_role(#[trigger] ms[k], ChatRole::Assistant) && (forall|j: int|
            k < j < ms.len() ==> msg_answers(#[trigger] ms[j], ms[k]))
}

/// The number of accounting tokens a message stands for: the length of
/// the text it carries. Token counts are inputs to this library; the
/// caller calibrates message lengths to its tokenizer.
pub open spec fn msg_tokens(m: CtxMsgV) -> nat {
    match m {
        CtxMsgV::Content { content, .. } => content.len(),
        CtxMsgV::Tool { result } => result.content.len(),
    }
}

/// The accounting tokens of the first `i` messages.
pub open spec fn tokens_upto(ms: Seq<CtxMsgV>, i: int) -> nat
    decreases i,
{
    if i <= 0 || i > ms.len() {
        0
    } else {
        tokens_upto(ms, i - 1) + msg_tokens(ms[i - 1])
    }
}

/// The accounting tokens of a whole transcript.
pub open spec fn context_tokens(ms: Seq<CtxMsgV>) -> nat {
    tokens_upto(ms, ms.len() as int)
}

impl Context {
    /// An empty transcript.
    pub fn new() -> (r: Context)
        ensures
            r.deep_view().messages =~= Seq::<CtxMsgV>::empty(),
            r.deep_view().tools =~= Seq::<ToolDefV>::empty(),
    {
        Context { messages: Vec::new(), tools: Vec::new() }
    }

    /// Inserts the leading system message, or replaces it if one is
    /// already there: the system message, if any, sits at position 0.
    pub fn set_first_system_message(self, content: String) -> (r: Context)
        ensures
            r.deep_view().tools == self.deep_view().tools,
            ({
                let m = CtxMsgV::Content {
                    role: ChatRole::System,
                    content: content@,
                    tool_calls: Seq::<ToolCallV>::empty(),
                };
                if self.deep_view().messages.len() > 0 && msg_has_role(
                    self.deep_view().messages[0],
                    ChatRole::System,
                ) {
                    r.deep_view().messages == self.deep_view().messages.update(0, m)
                } else {
                    r.deep_view().messages == self.deep_view().messages.insert(0, m)
                }
            }),
    {
        let mut messages = self.messages;
        let replace = if messages.len() > 0 {
            match &messages[0] {
                ContextMessage::Content { role: ChatRole::System, .. } => true,
                _ => false,
            }
        } else {
            false
        };
        let m = ContextMessage::system(content);
        if replace {
            messages.remove(0);
            messages.insert(0, m);
            proof {
                assert(messages.deep_view() =~= self.messages.deep_view().update(
                    0,
                    m.deep_view(),
                ));
            }
        } else {
            messages.insert(0, m);
            proof {
                assert(messages.deep_view() =~= self.messages.deep_view().insert(
                    0,
                    m.deep_view(),
                ));
            }
        }
        Context { messages, tools: self.tools }
    }

    /// Appends one message.
    pub fn add_message(self, m: ContextMessage) -> (r: Context)
        ensures
            r.deep_view().messages == self.deep_view().messages.push(m.deep_view()),
            r.deep_view().tools == self.deep_view().tools,
    {
        let mut messages = self.messages;
        proof {
            assert(messages.deep_view().push(m.deep_view()) =~= messages.deep_view().push(
                m.deep_view(),
            ));
        }
        let ghost before = messages.deep_view();
        messages.push(m);
        proof {
            assert(messages.deep_view() =~= before.push(m.deep_view()));
        }
        Context { messages, tools: self.tools }
    }

    /// Appends a batch of tool results, in order, as tool messages.
    pub fn add_tool_results(self, results: Vec<ToolResult>) -> (r: Context)
        ensures
            r.deep_view().messages == self.deep_view().messages + results.deep_view().map_values(
                |t: ToolResultV| CtxMsgV::Tool { result: t },
            ),
            r.deep_view().tools == self.deep_view().tools,
    {
        let mut messages = self.messages;
        let ghost start = messages.deep_view();
        let mut i: usize = 0;
        while i < results.len()
            invariant
                0 <= i <= results@.len(),
                messages.deep_view() =~~= start + results.deep_view().subrange(
                    0,
                    i as int,
                ).map_values(|t: ToolResultV| CtxMsgV::Tool { result: t }),
            decreases results@.len() - i,
        {
            messages.push(ContextMessage::Tool { result: results[i].duplicate() });
            proof {
                assert(results.deep_view().subrange(0, i + 1 as int).map_values(
                    |t: ToolResultV| CtxMsgV::Tool { result: t },
                ) =~= results.deep_view().subrange(0, i as int).map_values(
                    |t: ToolResultV| CtxMsgV::Tool { result: t },
                ).push(CtxMsgV::Tool { result: tool_result_view(results[i as int]) }));
            }
            i += 1;
        }
        proof {
            assert(results.deep_view().subrange(0, results.deep_view().len() as int)
                =~= results.deep_view());
            assert(messages.deep_view() =~~= start + results.deep_view().map_values(
                |t: ToolResultV| CtxMsgV::Tool { result: t },
            ));
        }
        Context { messages, tools: self.tools }
    }

    /// Attaches tool schemas for structured tool use.
    pub fn extend_tools(self, tools: Vec<ToolDefinition>) -> (r: Context)
        ensures
            r.deep_view().messages == self.deep_view().messages,
            r.deep_view().tools == self.deep_view().tools + tools.deep_view(),
    {
        let mut ts = self.tools;
        let ghost start = ts.deep_view();
        let mut i: usize = 0;
        while i < tools.len()
            invariant
                0 <= i <= tools@.len(),
                ts.deep_view() =~~= start + tools.deep_view().subrange(0, i as int),
            decreases tools@.len() - i,
        {
            ts.push(tools[i].duplicate());
            i += 1;
        }
        proof {
            assert(ts.deep_view() =~~= start + tools.deep_view());
        }
        Context { messages: self.messages, tools: ts }
    }

    /// A copy of this transcript with the same content.
    pub fn duplicate(&self) -> (r: Context)
        ensures
            r.deep_view() == self.deep_view(),
    {
        let mut messages: Vec<ContextMessage> = Vec::new();
        let mut i: usize = 0;
        while i < self.messages.len()
            invariant
                0 <= i <= self.messages@.len(),
                messages.deep_view() =~~= self.messages.deep_view().subrange(0, i as int),
            decreases self.messages@.len() - i,
        {
            messages.push(self.messages[i].duplicate());
            i += 1;
        }
        let mut tools: Vec<ToolDefinition> = Vec::new();
        let mut j: usize = 0;
        while j < self.tools.len()
            invariant
                0 <= j <= self.tools@.len(),
                tools.deep_view() =~~= self.tools.deep_view().subrange(0, j as int),
            decreases self.tools@.len() - j,
        {
            tools.push(self.tools[j].duplicate());
            j += 1;
        }
        let r = Context { messages, tools };
        proof {
            assert(r.deep_view().messages =~~= self.deep_view().messages);
            assert(r.deep_view().tools =~~= self.deep_view().tools);
        }
        r
    }

    /// The number of accounting tokens this transcript stands for.
    pub fn token_count(&self) -> (r: u128)
        ensures
            r == context_tokens(self.deep_view().messages),
    {
        let mut sum: u128 = 0;
        let mut i: usize = 0;
        while i < self.messages.len()
            invariant
                0 <= i <= self.messages@.len(),
                sum == tokens_upto(self.messages.deep_view(), i as int),
                sum <= (i as u128) * 0x1_0000_0000_0000_0000u128,
            decreases self.messages@.len() - i,
        {
            let l: usize = match &self.messages[i] {
                ContextMessage::Content { content, .. } => content.as_str().unicode_len(),
                ContextMessage::Tool { result } => result.content.as_str().unicode_len(),
            };
            proof {
                assert(l < 0x1_0000_0000_0000_0000u128) by {
                    assert(l <= usize::MAX);
                }
                assert((i as u128) * 0x1_0000_0000_0000_0000u128 + 0x1_0000_0000_0000_0000u128 == (
                (i + 1) as u128) * 0x1_0000_0000_0000_0000u128) by (nonlinear_arith);
                assert(((i + 1) as u128) * 0x1_0000_0000_0000_0000u128 <= 0xFFFF_FFFF_FFFF_FFFFu128
                    * 0x1_0000_0000_0000_0000u128) by (nonlinear_arith)
                    requires
                        i + 1 <= 0xFFFF_FFFF_FFFF_FFFFu128,
                ;
                assert(msg_tokens(self.messages.deep_view()[i as int]) == l);
            }
            sum = sum + (l as u128);
            i += 1;
        }
        sum
    }
}

/// The wire name of a role.
pub open spec fn spec_role_name(r: ChatRole) -> Seq<char> {
    match r {
        ChatRole::System => "system"@,
        ChatRole::User => "user"@,
        ChatRole::Assistant => "assistant"@,
    }
}

/// The flat textual projection of one message.
pub open spec fn spec_msg_text(m: CtxMsgV) -> Seq<char> {
    match m {
        CtxMsgV::Content { role, content, .. } => spec_role_name(role) + ": "@ + content + "\n"@,
        CtxMsgV::Tool { result } => "tool: "@ + result.content + "\n"@,
    }
}

/// The flat textual projection of the first `i` messages.
pub open spec fn spec_text_upto(ms: Seq<CtxMsgV>, i: int) -> Seq<char>
    decreases i,
{
    if i <= 0 || i > ms.len() {
        Seq::empty()
    } else {
        spec_text_upto(ms, i - 1) + spec_msg_text(ms[i - 1])
    }
}

/// The flat textual projection of a whole transcript.
pub open spec fn spec_context_text(ms: Seq<CtxMsgV>) -> Seq<char> {
    spec_text_upto(ms, ms.len() as int)
}

/// The text a message carries: its content, or for a tool message the
/// JSON text of its result.
pub open spec fn msg_content(m: CtxMsgV) -> Seq<char> {
    match m {
        CtxMsgV::Content { content, .. } => content,
        CtxMsgV::Tool { result } => result.content,
    }
}

/// Whether a message is a user message.
pub open spec fn is_user_msg(m: CtxMsgV) -> bool {
    msg_has_role(m, ChatRole::User)
}

/// The text of the most recent user message, if any.
pub open spec fn last_user_content(ms: Seq<CtxMsgV>) -> Option<Seq<char>>
    decreases ms.len(),
{
    if ms.len() == 0 {
        None
    } else if is_user_msg(ms.last()) {
        Some(msg_content(ms.last()))
    } else {
        last_user_content(ms.drop_last())
    }
}

/// The most recent user message is the one at `u`: a user message with
/// no user message after it.
pub proof fn lemma_last_user_at(ms: Seq<CtxMsgV>, u: int)
    requires
        0 <= u < ms.len(),
        is_user_msg(ms[u]),
        forall|j: int| u < j < ms.len() ==> !is_user_msg(#[trigger] ms[j]),
    ensures
        last_user_content(ms) == Some(msg_content(ms[u])),
    decreases ms.len(),
{
    if u == ms.len() - 1 {
    } else {
        assert(!is_user_msg(ms.last()));
        assert(ms.drop_last()[u] == ms[u]);
        lemma_last_user_at(ms.drop_last(), u);
    }
}

/// Whether a message is a system message.
pub open spec fn is_system_msg(m: CtxMsgV) -> bool {
    msg_has_role(m, ChatRole::System)
}

impl Context {
    /// The flat textual projection of this transcript: each message on
    /// its own line, prefixed by its role.
    pub fn to_text(&self) -> (r: String)
        ensures
            r@ == spec_context_text(self.deep_view().messages),
    {
        let ghost ms = self.deep_view().messages;
        let mut out = String::new();
        let mut i: usize = 0;
        proof {
            assert(out@ =~= spec_text_upto(ms, 0));
        }
        while i < self.messages.len()
            invariant
                0 <= i <= self.messages@.len(),
                ms == self.deep_view().messages,
                out@ == spec_text_upto(ms, i as int),
            decreases self.messages@.len() - i,
        {
            match &self.messages[i] {
                ContextMessage::Content { role, content, .. } => {
                    out.append(role.as_str());
                    out.append(": ");
                    out.append(content.as_str());
                    out.append("\n");
                },
                ContextMessage::Tool { result } => {
                    out.append("tool: ");
                    out.append(result.content.as_str());
                    out.append("\n");
                },
            }
            proof {
                assert(out@ =~= spec_text_upto(ms, i + 1));
            }
            i += 1;
        }
        out
    }

    /// The position of the most recent user message, if any.
    pub fn last_user_index(&self) -> (r: Option<usize>)
        ensures
            match r {
                Some(u) => u < self.deep_view().messages.len() && is_user_msg(
                    self.deep_view().messages[u as int],
                ) && (forall|j: int|
                    u < j < self.deep_view().messages.len() ==> !is_user_msg(
                        #[trigger] self.deep_view().messages[j],
                    )),
                None => forall|j: int|
                    0 <= j < self.deep_view().messages.len() ==> !is_user_msg(
                        #[trigger] self.deep_view().messages[j],
                    ),
            },
    {
        let mut i: usize = self.messages.len();
        while i > 0
            invariant
                0 <= i <= self.messages@.len(),
                forall|j: int|
                    i <= j < self.deep_view().messages.len() ==> !is_user_msg(
                        #[trigger] self.deep_view().messages[j],
                    ),
            decreases i,
        {
            i -= 1;
            let is_user = match &self.messages[i] {
                ContextMessage::Content { role: ChatRole::User, .. } => true,
                _ => false,
            };
            if is_user {
                return Some(i);
            }
        }
        None
    }

    /// Whether the message at `i` is a system message.
    fn msg_is_system(&self, i: usize) -> (r: bool)
        requires
            i < self.deep_view().messages.len(),
        ensures
            r == is_system_msg(self.deep_view().messages[i as int]),
    {
        match &self.messages[i] {
            ContextMessage::Content { role: ChatRole::System, .. } => true,
            _ => false,
        }
    }

    /// The oldest compressible span at or after `cursor`: a maximal run
    /// of non-system messages that ends before the most recent user
    /// message, so that replacing it leaves the user's latest turn
    /// intact.
    pub fn find_span(&self, cursor: usize) -> (r: Option<(usize, usize)>)
        ensures
            match r {
                Some(p) => {
                    let (s, e) = p;
                    let ms = self.deep_view().messages;
                    &&& cursor <= s < e <= ms.len()
                    &&& forall|j: int| s <= j < e ==> !is_system_msg(#[trigger] ms[j])
                    &&& forall|j: int| cursor <= j < s ==> is_system_msg(#[trigger] ms[j])
                    &&& exists|u: int|
                        e <= u < ms.len() && is_user_msg(#[trigger] ms[u]) && (forall|j: int|
                            u < j < ms.len() ==> !is_user_msg(#[trigger] ms[j]))
                },
                None => true,
            },
    {
        let lu = match self.last_user_index() {
            Some(u) => u,
            None => {
                return None;
            },
        };
        let mut s: usize = cursor;
        while s < lu && self.msg_is_system(s)
            invariant
                cursor <= s,
                lu < self.deep_view().messages.len(),
                forall|j: int|
                    cursor <= j < s ==> is_system_msg(#[trigger] self.deep_view().messages[j]),
            decreases lu - s,
        {
            s += 1;
        }
        if s >= lu {
            return None;
        }
        let mut e: usize = s + 1;
        while e < lu && !self.msg_is_system(e)
            invariant
                s < e <= self.deep_view().messages.len(),
                e <= lu,
                lu < self.deep_view().messages.len(),
                forall|j: int|
                    s <= j < e ==> !is_system_msg(#[trigger] self.deep_view().messages[j]),
            decreases lu - e,
        {
            e += 1;
        }
        Some((s, e))
    }

    /// The flat textual projection of the span `[s, e)`.
    pub fn span_text(&self, s: usize, e: usize) -> (r: String)
        requires
            s <= e <= self.deep_view().messages.len(),
        ensures
            r@ == spec_context_text(self.deep_view().messages.subrange(s as int, e as int)),
    {
        let ghost ms = self.deep_view().messages;
        let ghost span = ms.subrange(s as int, e as int);
        let mut out = String::new();
        let mut i: usize = s;
        proof {
            assert(out@ =~= spec_text_upto(span, 0));
        }
        while i < e
            invariant
                s <= i <= e,
                e <= self.messages@.len(),
                ms == self.deep_view().messages,
                span == ms.subrange(s as int, e as int),
                out@ == spec_text_upto(span, i - s),
            decreases e - i,
        {
            proof {
                assert(span[i - s] == ms[i as int]);
            }
            match &self.messages[i] {
                ContextMessage::Content { role, content, .. } => {
                    out.append(role.as_str());
                    out.append(": ");
                    out.append(content.as_str());
                    out.append("\n");
                },
                ContextMessage::Tool { result } => {
                    out.append("tool: ");
                    out.append(result.content.as_str());
                    out.append("\n");
                },
            }
            proof {
                assert(out@ =~= spec_text_upto(span, i + 1 - s));
            }
            i += 1;
        }
        out
    }

    /// Replaces the span `[s, e)` with a single assistant message
    /// carrying the given summary.
    pub fn replace_span(self, s: usize, e: usize, summary: String) -> (r: Context)
        requires
            s < e <= self.deep_view().messages.len(),
        ensures
            r.deep_view().messages == self.deep_view().messages.subrange(0, s as int).push(
                CtxMsgV::Content {
                    role: ChatRole::Assistant,
                    content: summary@,
                    tool_calls: Seq::<ToolCallV>::empty(),
                },
            ) + self.deep_view().messages.subrange(
                e as int,
                self.deep_view().messages.len() as int,
            ),
            r.deep_view().tools == self.deep_view().tools,
    {
        let ghost ms = self.deep_view().messages;
        let mut out: Vec<ContextMessage> = Vec::new();
        let mut i: usize = 0;
        while i < s
            invariant
                0 <= i <= s,
                s <= self.messages@.len(),
                ms == self.deep_view().messages,
                out.deep_view() =~~= ms.subrange(0, i as int),
            decreases s - i,
        {
            out.push(self.messages[i].duplicate());
            i += 1;
        }
        let m = ContextMessage::assistant(summary, Vec::new());
        proof {
            assert(m.deep_view() == (CtxMsgV::Content {
                role: ChatRole::Assistant,
                content: m.deep_view()->Content_content,
                tool_calls: Seq::<ToolCallV>::empty(),
            })) by {
                assert(match m {
                    ContextMessage::Content { tool_calls, .. } => tool_calls.deep_view()
                        =~= Seq::<ToolCallV>::empty(),
                    _ => false,
                });
            }
        }
        out.push(m);
        let mut j: usize = e;
        while j < self.messages.len()
            invariant
                e <= j <= self.messages@.len(),
                s < e <= self.messages@.len(),
                ms == self.deep_view().messages,
                out.deep_view() =~~= ms.subrange(0, s as int).push(m.deep_view()) + ms.subrange(
                    e as int,
                    j as int,
                ),
            decreases self.messages@.len() - j,
        {
            out.push(self.messages[j].duplicate());
            j += 1;
        }
        let r = Context { messages: out, tools: self.tools };
        proof {
            assert(r.deep_view().messages =~~= ms.subrange(0, s as int).push(
                CtxMsgV::Content {
                    role: ChatRole::Assistant,
                    content: summary@,
                    tool_calls: Seq::<ToolCallV>::empty(),
                },
            ) + ms.subrange(e as int, ms.len() as int));
        }
        r
    }
}

} // verus!
