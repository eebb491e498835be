//! The orchestrator: consumes one user request, synthesizes the dispatch
//! event, fans out to every subscribed agent in declared order, runs each
//! agent's turn loop — transforms, provider call, tool-call reassembly,
//! tool execution or recursive dispatch — and emits progress responses.
use vstd::prelude::*;

use crate::assembly::{assemble, spec_assemble, ChatCompletionResult};
use crate::chat::{
    chunk_responses, stream_responses, stream_responses_upto, AgentMessage, AgentMsgV,
    ChatCompletionMessage, ChatRequest, ChatRespV, ChatResponse,
};
use crate::context::{
    is_system_msg, is_user_msg, last_user_content, lemma_last_user_at, msg_has_role, tail_shape,
    Context, ContextMessage, CtxMsgV,
};
use crate::conversation::{Conversation, ConversationStore};
use crate::error::Error;
use crate::event::{spec_event_type, Event, EventType};
use crate::services::{services_advance, Services, Suggestion, SystemContext, UserContext};
use crate::tool::{ToolCallFull, ToolCallV, ToolDefV, ToolDefinition};
use crate::tool_result::{tool_result_view, ToolResult, ToolResultV};
use crate::workflow::{spec_allows_tool, spec_subscribes, Agent, AgentId, Transform};
use crate::ChatRole;

verus! {

broadcast use crate::views::lemma_vec_deep_view, crate::views::lemma_seq_deep_push, crate::views::lemma_seq_deep_subrange, crate::views::lemma_prefix_refl, crate::views::lemma_prefix_chain, crate::views::lemma_prefix_push;

/// How deep recursive dispatch may go before the turn is refused.
pub const DISPATCH_FUEL: u64 = 32;

/// A response wrapped with its emitting agent.
pub open spec fn wrap_resp(agent: Seq<char>, m: ChatRespV) -> AgentMsgV<ChatRespV> {
    AgentMsgV { agent, message: m }
}

/// A whole batch of responses wrapped with one emitting agent.
pub open spec fn wrap_all(agent: Seq<char>, ms: Seq<ChatRespV>) -> Seq<AgentMsgV<ChatRespV>> {
    ms.map_values(|m: ChatRespV| wrap_resp(agent, m))
}

/// The agent a transform hands its input to.
pub open spec fn transform_agent(t: Transform) -> Seq<char> {
    match t {
        Transform::Assistant { agent_id, .. } => agent_id@,
        Transform::User { agent_id, .. } => agent_id@,
        Transform::PassThrough { agent_id, .. } => agent_id@,
    }
}

/// The named agent's turn counter rose from `pre` to `post`.
pub open spec fn agent_turn_rose(pre: Conversation, post: Conversation, aid: Seq<char>) -> bool {
    exists|i: int| {
        &&& 0 <= i < post.workflow.agents@.len()
        &&& (#[trigger] post.workflow.agents@[i]).id@ == aid
        &&& (post.turns@[i] >= pre.turns@[i] + 1 || pre.turns@[i] == u64::MAX)
    }
}

/// The output event name a User transform waits for; empty for others.
pub open spec fn user_output(t: Transform) -> Seq<char> {
    match t {
        Transform::User { output, .. } => output@,
        _ => Seq::empty(),
    }
}

/// What the User transform leaves behind when it fires: the transcript
/// unchanged but for its last message, a user message whose text gained
/// the awaited output wrapped in its delimiters.
pub open spec fn user_appended(pre: Seq<CtxMsgV>, post: Seq<CtxMsgV>, out: Seq<char>) -> bool {
    &&& pre.len() > 0
    &&& post.len() == pre.len()
    &&& (forall|j: int| 0 <= j < pre.len() - 1 ==> post[j] == pre[j])
    &&& is_user_msg(pre.last())
    &&& (exists|v: Seq<char>|
        post.last() == (CtxMsgV::Content {
            role: ChatRole::User,
            content: crate::context::msg_content(pre.last()) + "\n<"@ + out + ">\n"@ + v + "\n</"@
                + out + ">"@,
            tool_calls: Seq::<ToolCallV>::empty(),
        }))
}

/// Every result answers one of the calls: same tool name, same call
/// identifier.
pub open spec fn results_match(rs: Seq<ToolResultV>, calls: Seq<ToolCallV>) -> bool {
    forall|j: int|
        0 <= j < rs.len() ==> exists|i: int|
            0 <= i < calls.len() && (#[trigger] calls[i]).name == (#[trigger] rs[j]).name
                && calls[i].call_id == rs[j].call_id
}

/// Whether the log already holds the event that opens a task.
pub open spec fn has_task_init(events: Seq<Event>) -> bool {
    exists|i: int|
        0 <= i < events.len() && spec_event_type((#[trigger] events[i]).name@)
            == EventType::UserTaskInit
}

/// What one conversation mutation leaves untouched and what it may only
/// grow: the binding and the workflow stay, the event log is extended,
/// per-agent state keeps its length, turn counters never fall, and a
/// stored context never disappears.
pub open spec fn conv_frame(pre: Conversation, post: Conversation) -> bool {
    &&& post.id == pre.id
    &&& post.workflow == pre.workflow
    &&& pre.events@.is_prefix_of(post.events@)
    &&& post.turns@.len() == pre.turns@.len()
    &&& post.contexts@.len() == pre.contexts@.len()
    &&& forall|i: int| 0 <= i < pre.turns@.len() ==> post.turns@[i] >= pre.turns@[i]
    &&& forall|i: int|
        0 <= i < pre.contexts@.len() && pre.contexts@[i] is Some ==> (#[trigger] post.contexts@[i]) is Some
}

/// Every stored context ends the way a finished turn leaves it, and
/// starts with its system message.
pub open spec fn shaped(c: Conversation) -> bool {
    forall|i: int|
        0 <= i < c.contexts@.len() && (#[trigger] c.contexts@[i]) is Some ==> {
            let ms = c.contexts@[i]->Some_0.deep_view().messages;
            &&& tail_shape(ms)
            &&& ms.len() > 0
            &&& msg_has_role(ms[0], ChatRole::System)
        }
}

/// The orchestrator: the scripted services, the environment metadata,
/// the optional progress sink, the request being served, and the counter
/// that mints event identifiers and timestamps.
#[derive(Debug)]
pub struct Orchestrator {
    pub services: Services,
    pub system_context: SystemContext,
    pub sink: Option<Vec<AgentMessage<ChatResponse>>>,
    pub chat_request: ChatRequest,
    pub tick: u64,
}

/// What the sink has received so far; empty when there is no sink.
pub open spec fn sink_seq(o: Orchestrator) -> Seq<AgentMsgV<ChatRespV>> {
    match o.sink {
        Some(v) => v.deep_view(),
        None => Seq::empty(),
    }
}

/// Whether a sink is attached.
pub open spec fn sink_on(o: Orchestrator) -> bool {
    o.sink is Some
}

/// What one orchestrator step preserves: the scripts, the request and the
/// metadata stay; cursors only advance; the sink only grows, in order.
pub open spec fn orch_advance(pre: Orchestrator, post: Orchestrator) -> bool {
    &&& services_advance(pre.services, post.services)
    &&& post.system_context == pre.system_context
    &&& post.chat_request == pre.chat_request
    &&& (sink_on(post) <==> sink_on(pre))
    &&& sink_seq(pre).is_prefix_of(sink_seq(post))
}

/// Prefixes chain.
pub proof fn lemma_prefix_trans<T>(a: Seq<T>, b: Seq<T>, c: Seq<T>)
    requires
        a.is_prefix_of(b),
        b.is_prefix_of(c),
    ensures
        a.is_prefix_of(c),
{
    assert(a =~= c.subrange(0, a.len() as int));
}

/// Conversation frames chain.
pub proof fn lemma_frame_trans(a: Conversation, b: Conversation, c: Conversation)
    requires
        conv_frame(a, b),
        conv_frame(b, c),
    ensures
        conv_frame(a, c),
{
    lemma_prefix_trans(a.events@, b.events@, c.events@);
}

/// Orchestrator advances chain.
pub proof fn lemma_advance_trans(a: Orchestrator, b: Orchestrator, c: Orchestrator)
    requires
        orch_advance(a, b),
        orch_advance(b, c),
    ensures
        orch_advance(a, c),
{
    lemma_prefix_trans(sink_seq(a), sink_seq(b), sink_seq(c));
}

/// Appending at most one sink entry is an advance.
pub proof fn lemma_advance_step(a: Orchestrator, b: Orchestrator)
    requires
        b.services == a.services,
        b.system_context == a.system_context,
        b.chat_request == a.chat_request,
        (sink_on(b) <==> sink_on(a)),
        sink_seq(b) == sink_seq(a) || (exists|x: AgentMsgV<ChatRespV>|
            sink_seq(b) == sink_seq(a).push(x)),
    ensures
        orch_advance(a, b),
{
    if sink_seq(b) == sink_seq(a) {
        assert(sink_seq(a) =~= sink_seq(b).subrange(0, sink_seq(a).len() as int));
    } else {
        let x = choose|x: AgentMsgV<ChatRespV>| sink_seq(b) == sink_seq(a).push(x);
        assert(sink_seq(a) =~= sink_seq(b).subrange(0, sink_seq(a).len() as int));
    }
}

impl Orchestrator {
    /// The cursors of the scripts sit inside them.
    pub open spec fn wf(&self) -> bool {
        self.services.wf()
    }

    /// An orchestrator over the given services, serving one request,
    /// with an optional progress sink.
    pub fn new(
        services: Services,
        chat_request: ChatRequest,
        system_context: SystemContext,
        sender: Option<Vec<AgentMessage<ChatResponse>>>,
    ) -> (r: Orchestrator)
        requires
            services.wf(),
        ensures
            r.wf(),
            r.services == services,
            r.chat_request == chat_request,
            r.system_context == system_context,
            r.sink == sender,
            r.tick == 0,
    {
        Orchestrator { services, system_context, sink: sender, chat_request, tick: 0 }
    }

    /// The next fresh identifier and timestamp.
    fn next_tick(&mut self) -> (r: u64)
        ensures
            final(self).services == old(self).services,
            final(self).system_context == old(self).system_context,
            final(self).chat_request == old(self).chat_request,
            final(self).sink == old(self).sink,
            r == old(self).tick,
    {
        let t = self.tick;
        self.tick = if t == u64::MAX {
            t
        } else {
            t + 1
        };
        t
    }

    /// Delivers one response to the sink, wrapped with its agent, if a
    /// sink is attached.
    pub fn send_message(&mut self, agent_id: &AgentId, message: ChatResponse)
        ensures
            final(self).services == old(self).services,
            final(self).system_context == old(self).system_context,
            final(self).chat_request == old(self).chat_request,
            final(self).tick == old(self).tick,
            (sink_on(*final(self)) <==> sink_on(*old(self))),
            sink_seq(*final(self)) == if sink_on(*old(self)) {
                sink_seq(*old(self)).push(wrap_resp(agent_id@, message.deep_view()))
            } else {
                sink_seq(*old(self))
            },
    {
        let ghost msg = message.deep_view();
        match &mut self.sink {
            Some(v) => {
                v.push(AgentMessage { agent: agent_id.duplicate(), message });
                proof {
                    assert(sink_seq(*self) =~= sink_seq(*old(self)).push(wrap_resp(agent_id@, msg)));
                }
            },
            None => {},
        }
    }

    /// Delivers one response to the sink.
    pub fn send(&mut self, agent_id: &AgentId, message: ChatResponse)
        ensures
            final(self).services == old(self).services,
            final(self).system_context == old(self).system_context,
            final(self).chat_request == old(self).chat_request,
            final(self).tick == old(self).tick,
            (sink_on(*final(self)) <==> sink_on(*old(self))),
            sink_seq(*final(self)) == if sink_on(*old(self)) {
                sink_seq(*old(self)).push(wrap_resp(agent_id@, message.deep_view()))
            } else {
                sink_seq(*old(self))
            },
    {
        self.send_message(agent_id, message);
    }

    /// Delivers the text chunk and the usage report of every streamed
    /// record, in stream order.
    fn emit_stream(&mut self, agent_id: &AgentId, messages: &Vec<ChatCompletionMessage>)
        ensures
            final(self).services == old(self).services,
            final(self).system_context == old(self).system_context,
            final(self).chat_request == old(self).chat_request,
            final(self).tick == old(self).tick,
            (sink_on(*final(self)) <==> sink_on(*old(self))),
            sink_seq(*final(self)) == if sink_on(*old(self)) {
                sink_seq(*old(self)) + wrap_all(
                    agent_id@,
                    stream_responses_upto(messages.deep_view(), messages.deep_view().len() as int),
                )
            } else {
                sink_seq(*old(self))
            },
    {
        let ghost msv = messages.deep_view();
        let ghost start = sink_seq(*self);
        let mut i: usize = 0;
        proof {
            assert(start + wrap_all(agent_id@, stream_responses_upto(msv, 0)) =~= start);
        }
        while i < messages.len()
            invariant
                0 <= i <= messages@.len(),
                msv == messages.deep_view(),
                self.services == old(self).services,
                self.system_context == old(self).system_context,
                self.chat_request == old(self).chat_request,
                self.tick == old(self).tick,
                (sink_on(*self) <==> sink_on(*old(self))),
                start == sink_seq(*old(self)),
                sink_seq(*self) == if sink_on(*old(self)) {
                    start + wrap_all(agent_id@, stream_responses_upto(msv, i as int))
                } else {
                    start
                },
            decreases messages@.len() - i,
        {
            let m = &messages[i];
            proof {
                assert(msv[i as int] == m.deep_view());
            }
            if let Some(c) = &m.content {
                self.send(agent_id, ChatResponse::Text(c.clone()));
            }
            if let Some(u) = m.usage {
                self.send(agent_id, ChatResponse::Usage(u));
            }
            proof {
                if sink_on(*old(self)) {
                    assert(sink_seq(*self) =~= start + wrap_all(
                        agent_id@,
                        stream_responses_upto(msv, i + 1 as int),
                    )) by {
                        assert(stream_responses_upto(msv, i + 1 as int) =~= stream_responses_upto(
                            msv,
                            i as int,
                        ) + chunk_responses(msv[i as int]));
                    }
                }
            }
            i += 1;
        }
    }

    /// Every tool the registry offers.
    pub fn init_default_tool_definitions(&self) -> (r: Vec<ToolDefinition>)
        ensures
            r.deep_view() == self.services.tools.deep_view(),
    {
        let mut out: Vec<ToolDefinition> = Vec::new();
        let mut i: usize = 0;
        while i < self.services.tools.len()
            invariant
                0 <= i <= self.services.tools@.len(),
                out.deep_view() =~~= self.services.tools.deep_view().subrange(0, i as int),
            decreases self.services.tools@.len() - i,
        {
            out.push(self.services.tools[i].duplicate());
            i += 1;
        }
        proof {
            assert(out.deep_view() =~~= self.services.tools.deep_view());
        }
        out
    }

    /// The registry's tools and the dispatch tool, kept where the agent's
    /// allow-list names them, in order.
    pub fn init_tool_definitions(&self, agent: &Agent) -> (r: Vec<ToolDefinition>)
        ensures
            r.deep_view() == ({
                let all = self.services.tools.deep_view().push(crate::event::dispatch_def());
                agent_defs(all, *agent, all.len() as int)
            }),
    {
        let mut all = self.init_default_tool_definitions();
        all.push(Event::tool_definition());
        let ghost av = self.services.tools.deep_view().push(crate::event::dispatch_def());
        proof {
            assert(all.deep_view() =~~= av);
        }
        let mut out: Vec<ToolDefinition> = Vec::new();
        let mut i: usize = 0;
        while i < all.len()
            invariant
                0 <= i <= all@.len(),
                av == all.deep_view(),
                out.deep_view() =~~= agent_defs(av, *agent, i as int),
            decreases all@.len() - i,
        {
            proof {
                assert(av[i as int] == all@[i as int].deep_view());
            }
            if agent.allows_tool(&all[i].name) {
                out.push(all[i].duplicate());
            }
            i += 1;
        }
        out
    }

    /// The usage information of the given tools: each usage prompt on a
    /// line of its own.
    fn usage_info(defs: &Vec<ToolDefinition>) -> (r: String)
        ensures
            r@ == usage_upto(defs.deep_view(), defs.deep_view().len() as int),
    {
        let ghost dv = defs.deep_view();
        let mut out = String::new();
        let mut i: usize = 0;
        proof {
            assert(out@ =~= usage_upto(dv, 0));
        }
        while i < defs.len()
            invariant
                0 <= i <= defs@.len(),
                dv == defs.deep_view(),
                out@ == usage_upto(dv, i as int),
            decreases defs@.len() - i,
        {
            proof {
                assert(dv[i as int] == defs@[i as int].deep_view());
            }
            out.append("\n");
            out.append(defs[i].usage_prompt.as_str());
            proof {
                assert(out@ =~= usage_upto(dv, i + 1 as int));
            }
            i += 1;
        }
        out
    }

    /// A fresh context for one agent: the rendered system prompt first,
    /// and the agent's tool schemas attached when the provider supports
    /// structured tool use.
    pub fn init_agent_context(&mut self, agent: &Agent) -> (r: Context)
        requires
            old(self).wf(),
        ensures
            final(self).wf(),
            orch_advance(*old(self), *final(self)),
            sink_seq(*final(self)) == sink_seq(*old(self)),
            final(self).services.provider_at == old(self).services.provider_at,
            final(self).services.tool_at == old(self).services.tool_at,
            r.deep_view().messages.len() == 1,
            msg_has_role(r.deep_view().messages[0], ChatRole::System),
            old(self).services.render_at < old(self).services.renders@.len() ==> {
                &&& r.deep_view().messages[0] == (CtxMsgV::Content {
                    role: ChatRole::System,
                    content: old(self).services.renders@[old(self).services.render_at as int]@,
                    tool_calls: Seq::<ToolCallV>::empty(),
                })
                &&& final(self).services.render_at == old(self).services.render_at + 1
            },
            r.deep_view().tools == if old(self).services.tool_supported {
                let all = old(self).services.tools.deep_view().push(crate::event::dispatch_def());
                agent_defs(all, *agent, all.len() as int)
            } else {
                Seq::<ToolDefV>::empty()
            },
    {
        let tool_defs = self.init_tool_definitions(agent);
        let usage = Self::usage_info(&tool_defs);
        let supported = self.services.tool_supported;
        let system_context = SystemContext {
            tool_supported: Some(supported),
            tool_information: usage,
        };
        let message = self.services.render_system(&agent.system_prompt, &system_context);
        let fresh = Context::new().set_first_system_message(message);
        let r = if supported {
            fresh.extend_tools(tool_defs)
        } else {
            fresh.extend_tools(Vec::new())
        };
        proof {
            assert(r.deep_view().tools =~= if old(self).services.tool_supported {
                let all = old(self).services.tools.deep_view().push(crate::event::dispatch_def());
                agent_defs(all, *agent, all.len() as int)
            } else {
                Seq::<ToolDefV>::empty()
            });
        }
        r
    }

    /// The suggestion texts the search service returned.
    pub fn init_suggestions(&self) -> (r: Vec<String>)
        ensures
            r@.map_values(|s: String| s@) == self.services.suggestions@.map_values(
                |s: Suggestion| s.suggestion@,
            ),
    {
        let mut out: Vec<String> = Vec::new();
        let mut i: usize = 0;
        while i < self.services.suggestions.len()
            invariant
                0 <= i <= self.services.suggestions@.len(),
                out@.len() == i,
                forall|j: int|
                    0 <= j < i ==> (#[trigger] out@[j])@ == self.services.suggestions@[j].suggestion@,
            decreases self.services.suggestions@.len() - i,
        {
            out.push(self.services.suggestions[i].suggestion.clone());
            i += 1;
        }
        proof {
            assert(out@.map_values(|s: String| s@) =~= self.services.suggestions@.map_values(
                |s: Suggestion| s.suggestion@,
            ));
        }
        out
    }

    /// The newest event with the given name, if any.
    pub fn get_last_event(&self, conversation: &Conversation, name: &str) -> (r: Option<Event>)
        ensures
            (match r {
                Some(e) => exists|i: int|
                    0 <= i < conversation.events@.len() && #[trigger] conversation.events@[i] == e
                        && conversation.events@[i].name@ == name@ && (forall|j: int|
                        i < j < conversation.events@.len() ==> (
                        #[trigger] conversation.events@[j]).name@ != name@),
                None => forall|j: int|
                    0 <= j < conversation.events@.len() ==> (
                    #[trigger] conversation.events@[j]).name@ != name@,
            }),
    {
        match conversation.rfind_event(name) {
            Some(e) => Some(e.duplicate()),
            None => None,
        }
    }

    /// The event that this request dispatches: a task opening if the log
    /// holds none yet, a task update otherwise.
    pub fn init_dispatch_event(&mut self, conversation: &Conversation) -> (r: Event)
        ensures
            final(self).services == old(self).services,
            final(self).system_context == old(self).system_context,
            final(self).chat_request == old(self).chat_request,
            final(self).sink == old(self).sink,
            r.value@ == old(self).chat_request.content@,
            r.name@ == if has_task_init(conversation.events@) {
                crate::event::task_update_name()
            } else {
                crate::event::task_init_name()
            },
    {
        let has_task = match conversation.rfind_event_by_type(EventType::UserTaskInit) {
            Some(_) => true,
            None => false,
        };
        let t = self.next_tick();
        if has_task {
            Event::task_update(self.chat_request.content.as_str(), t, t)
        } else {
            Event::task_init(self.chat_request.content.as_str(), t, t)
        }
    }
}

/// The tools an agent may use, among the given ones, in order.
pub open spec fn agent_defs(defs: Seq<ToolDefV>, agent: Agent, i: int) -> Seq<ToolDefV>
    decreases i,
{
    if i <= 0 || i > defs.len() {
        Seq::empty()
    } else {
        agent_defs(defs, agent, i - 1) + (if spec_allows_tool(agent, defs[i - 1].name) {
            seq![defs[i - 1]]
        } else {
            Seq::empty()
        })
    }
}

/// The usage prompts of the first `i` tools, each on a line of its own.
pub open spec fn usage_upto(defs: Seq<ToolDefV>, i: int) -> Seq<char>
    decreases i,
{
    if i <= 0 || i > defs.len() {
        Seq::empty()
    } else {
        usage_upto(defs, i - 1) + "\n"@ + defs[i - 1].usage_prompt
    }
}

/// The full tool registry one stream is assembled against: every tool
/// the registry offers, and the dispatch tool.
pub open spec fn registry_view(s: Services) -> Seq<ToolDefV> {
    s.tools.deep_view().push(crate::event::dispatch_def())
}

/// Exactly the agent at `i` subscribes to the event name, and its turn
/// cannot fail.
pub open spec fn sole_ready_subscriber(o: Orchestrator, c: Conversation, name: Seq<char>, i: int) -> bool {
    &&& 0 <= i < c.workflow.agents@.len()
    &&& spec_subscribes(c.workflow.agents@[i], name)
    &&& (forall|j: int|
        0 <= j < c.workflow.agents@.len() && j != i ==> !spec_subscribes(
            #[trigger] c.workflow.agents@[j],
            name,
        ))
    &&& simple_turn_ready(o.services, c, c.workflow.agents@[i].id@)
}

/// Some agent is the sole ready subscriber of the event name.
pub open spec fn dispatch_ready(o: Orchestrator, c: Conversation, name: Seq<char>) -> bool {
    exists|i: int| sole_ready_subscriber(o, c, name, i)
}

/// A turn that cannot fail: the agent exists and carries no transforms,
/// and the next provider reply is a whole stream that assembles to no
/// tool calls at all, so one iteration answers and completes the turn.
pub open spec fn simple_turn_ready(s: Services, c: Conversation, agent_id: Seq<char>) -> bool {
    &&& exists|i: int|
        0 <= i < c.workflow.agents@.len() && (#[trigger] c.workflow.agents@[i]).id@ == agent_id
            && c.workflow.agents@[i].transforms@.len() == 0
    &&& s.provider_at < s.provider_replies@.len()
    &&& s.provider_replies@[s.provider_at as int] is Stream
    &&& spec_assemble(
        s.provider_replies@[s.provider_at as int]->Stream_0.deep_view(),
        registry_view(s),
    ) == Some(Seq::<ToolCallV>::empty())
}

impl Orchestrator {
    /// Delivers each streamed record's responses in order, then
    /// assembles the stream's joined text and tool calls.
    pub fn collect_messages(
        &mut self,
        agent_id: &AgentId,
        messages: &Vec<ChatCompletionMessage>,
    ) -> (r: Result<ChatCompletionResult, Error>)
        requires
            old(self).wf(),
        ensures
            final(self).wf(),
            orch_advance(*old(self), *final(self)),
            final(self).services == old(self).services,
            final(self).tick == old(self).tick,
            sink_seq(*final(self)) == if sink_on(*old(self)) {
                sink_seq(*old(self)) + wrap_all(agent_id@, stream_responses(messages.deep_view()))
            } else {
                sink_seq(*old(self))
            },
            (r is Ok ==> r->Ok_0.content@ == crate::assembly::joined(messages.deep_view())),
            (r is Ok ==> spec_assemble(messages.deep_view(), registry_view(old(self).services))
                == Some(r->Ok_0.tool_calls.deep_view())),
            (r is Err ==> spec_assemble(messages.deep_view(), registry_view(old(self).services)) is None),
            (r is Err ==> r->Err_0 matches Error::ToolCallParseError(_)),
    {
        self.emit_stream(agent_id, messages);
        let mut registry = self.init_default_tool_definitions();
        registry.push(Event::tool_definition());
        proof {
            assert(registry.deep_view() =~~= registry_view(self.services));
        }
        assemble(messages, &registry)
    }

    /// Executes one tool call: a dispatch call re-enters the
    /// orchestrator and yields no result; any other call goes to the
    /// tool service and yields one, stamped with the call's name and
    /// identifier.
    fn execute_tool(
        &mut self,
        conversation: &mut Conversation,
        agent_id: &AgentId,
        tool_call: &ToolCallFull,
        fuel: u64,
    ) -> (r: Result<Option<ToolResult>, Error>)
        requires
            old(conversation).wf(),
            shaped(*old(conversation)),
            old(self).wf(),
        ensures
            final(conversation).wf(),
            shaped(*final(conversation)),
            conv_frame(*old(conversation), *final(conversation)),
            final(self).wf(),
            orch_advance(*old(self), *final(self)),
            (match r {
                Ok(out) => match out {
                    Some(t) => t.name == tool_call.name && t.call_id == tool_call.call_id
                        && crate::event::spec_event_parse(tool_call@) is None,
                    None => crate::event::spec_event_parse(tool_call@) is Some,
                },
                Err(_) => true,
            }),
            (fuel == 0 ==> r matches Err(Error::RecursionLimit)),
            (fuel > 0 && crate::event::spec_event_parse(tool_call@) is None ==> ({
                let s = old(self).services;
                &&& *final(conversation) == *old(conversation)
                &&& sink_seq(*final(self)) == sink_seq(*old(self))
                &&& final(self).services.provider_at == s.provider_at
                &&& final(self).services.render_at == s.render_at
                &&& match r {
                    Ok(out) => match out {
                        Some(t) => {
                            &&& (s.tool_at < s.tool_replies@.len() ==> {
                                &&& final(self).services.tool_at == s.tool_at + 1
                                &&& t.content@ == s.tool_replies@[s.tool_at as int].content@
                                &&& t.is_error == s.tool_replies@[s.tool_at as int].is_error
                            })
                            &&& (s.tool_at == s.tool_replies@.len() ==> t.is_error)
                        },
                        None => false,
                    },
                    Err(_) => false,
                }
            })),
            (fuel > 0 && crate::event::spec_event_parse(tool_call@) is Some ==> ({
                let nv = crate::event::spec_event_parse(tool_call@)->Some_0;
                let at = old(conversation).events@.len() as int;
                &&& final(conversation).events@.len() > old(conversation).events@.len()
                &&& final(conversation).events@[at].name@ == nv.0
                &&& final(conversation).events@[at].value@ == nv.1
            })),
        decreases fuel,
    {
        if fuel == 0 {
            return Err(Error::RecursionLimit);
        }
        let t = self.next_tick();
        match Event::parse(tool_call, t, t) {
            Some(event) => {
                self.send(agent_id, ChatResponse::Custom(event.duplicate()));
                let ghost evg = event;
                let ghost pre_ev = conversation.events@;
                let outcome = self.dispatch(conversation, event, fuel - 1);
                proof {
                    assert(pre_ev.push(evg).is_prefix_of(conversation.events@));
                    assert(conversation.events@[pre_ev.len() as int] == pre_ev.push(evg)[pre_ev.len() as int]) by {
                        assert(conversation.events@.subrange(0, pre_ev.len() as int + 1) == pre_ev.push(evg));
                    }
                }
                match outcome {
                    Ok(()) => Ok(None),
                    Err(e) => Err(e),
                }
            },
            None => {
                let result = self.services.call_tool(tool_call);
                Ok(Some(result))
            },
        }
    }

    /// Inserts the event into the log, then invokes every subscribed
    /// agent in declared order; every sibling runs to completion and the
    /// first error observed decides the outcome.
    pub fn dispatch(&mut self, conversation: &mut Conversation, event: Event, fuel: u64) -> (r:
        Result<(), Error>)
        requires
            old(conversation).wf(),
            shaped(*old(conversation)),
            old(self).wf(),
        ensures
            final(conversation).wf(),
            shaped(*final(conversation)),
            conv_frame(*old(conversation), *final(conversation)),
            final(self).wf(),
            orch_advance(*old(self), *final(self)),
            old(conversation).events@.push(event).is_prefix_of(final(conversation).events@),
            (fuel == 0 ==> r matches Err(Error::RecursionLimit)),
            (fuel >= 2 && dispatch_ready(*old(self), *old(conversation), event.name@) ==> r is Ok),
            (r is Ok ==> forall|i: int|
                0 <= i < old(conversation).workflow.agents@.len() && spec_subscribes(
                    #[trigger] old(conversation).workflow.agents@[i],
                    event.name@,
                ) ==> ({
                    &&& (final(conversation).turns@[i] >= old(conversation).turns@[i] + 1 || old(
                        conversation,
                    ).turns@[i] == u64::MAX)
                    &&& final(conversation).contexts@[i] is Some
                })),
        decreases fuel,
    {
        conversation.insert_event(event.duplicate());
        if fuel == 0 {
            return Err(Error::RecursionLimit);
        }
        let entries = conversation.workflow.entries(event.name.as_str());
        let ghost c1 = *conversation;
        let ghost s1 = *self;
        let ghost evname = event.name@;
        proof {
            if fuel >= 2 && dispatch_ready(*old(self), *old(conversation), evname) {
                let iw = choose|iw: int| sole_ready_subscriber(
                    *old(self),
                    *old(conversation),
                    evname,
                    iw,
                );
                assert(entries@.len() >= 1) by {
                    assert(exists|j: int| 0 <= j < entries@.len() && entries@[j] == iw);
                }
                assert(entries@.len() <= 1) by {
                    if entries@.len() >= 2 {
                        assert(entries@[0] as int == iw && entries@[1] as int == iw) by {
                            assert(spec_subscribes(
                                c1.workflow.agents@[entries@[0] as int],
                                evname,
                            ));
                            assert(spec_subscribes(
                                c1.workflow.agents@[entries@[1] as int],
                                evname,
                            ));
                        }
                        assert(entries@[0] < entries@[1]);
                    }
                }
                assert(entries@[0] as int == iw) by {
                    assert(spec_subscribes(c1.workflow.agents@[entries@[0] as int], evname));
                }
            }
        }
        let mut first_err: Option<Error> = None;
        let mut k: usize = 0;
        while k < entries.len()
            invariant
                0 <= k <= entries@.len(),
                s1 == *old(self),
                c1.workflow == old(conversation).workflow,
                c1.turns == old(conversation).turns,
                c1.contexts == old(conversation).contexts,
                (fuel >= 2 && dispatch_ready(*old(self), *old(conversation), evname)) ==> ({
                    &&& entries@.len() == 1
                    &&& first_err is None
                    &&& (k == 0 ==> *self == s1 && *conversation == c1)
                }),
                forall|j: int| 0 <= j < entries@.len() ==> #[trigger] entries@[j] < c1.workflow.agents@.len(),
                forall|i: int|
                    0 <= i < c1.workflow.agents@.len() && spec_subscribes(
                        #[trigger] c1.workflow.agents@[i],
                        evname,
                    ) ==> exists|j: int| 0 <= j < entries@.len() && entries@[j] == i,
                conversation.wf(),
                shaped(*conversation),
                conv_frame(c1, *conversation),
                conv_frame(*old(conversation), *conversation),
                self.wf(),
                orch_advance(s1, *self),
                orch_advance(*old(self), *self),
                fuel >= 1,
                first_err is None ==> forall|j: int|
                    0 <= j < k ==> ({
                        let i = #[trigger] entries@[j] as int;
                        &&& (conversation.turns@[i] >= c1.turns@[i] + 1 || c1.turns@[i]
                            == u64::MAX)
                        &&& conversation.contexts@[i] is Some
                    }),
            decreases entries@.len() - k,
        {
            let ghost c2 = *conversation;
            let ghost s2 = *self;
            let idx = entries[k];
            let id = conversation.workflow.agents[idx].id.duplicate();
            proof {
                if fuel >= 2 && dispatch_ready(*old(self), *old(conversation), evname) {
                    let iw = choose|iw: int| sole_ready_subscriber(
                        *old(self),
                        *old(conversation),
                        evname,
                        iw,
                    );
                    assert(entries@[0] as int == iw) by {
                        assert(spec_subscribes(c1.workflow.agents@[entries@[0] as int], evname));
                    }
                    assert(simple_turn_ready(self.services, *conversation, id@));
                }
            }
            let outcome = self.init_agent(conversation, &id, &event, fuel - 1);
            proof {
                lemma_prefix_trans(c1.events@, c2.events@, conversation.events@);
                assert(sink_seq(s1).is_prefix_of(sink_seq(*self))) by {
                    lemma_prefix_trans(sink_seq(s1), sink_seq(s2), sink_seq(*self));
                }
                if outcome is Ok {
                    let iw = choose|iw: int|
                        0 <= iw < conversation.workflow.agents@.len() && (
                        #[trigger] conversation.workflow.agents@[iw]).id@ == id@ && (
                        conversation.turns@[iw] >= c2.turns@[iw] + 1 || c2.turns@[iw]
                            == u64::MAX) && conversation.contexts@[iw] is Some;
                    assert(iw == idx as int) by {
                        if iw != idx as int {
                            assert(conversation.workflow.agents@[iw].id@
                                != conversation.workflow.agents@[idx as int].id@);
                        }
                    }
                }
            }
            match outcome {
                Ok(()) => {},
                Err(e) => {
                    if first_err.is_none() {
                        first_err = Some(e);
                    }
                },
            }
            k += 1;
        }
        proof {
            lemma_prefix_trans(
                old(conversation).events@.push(event),
                c1.events@,
                conversation.events@,
            );
            if first_err is None {
                assert forall|i: int|
                    0 <= i < old(conversation).workflow.agents@.len() && spec_subscribes(
                        #[trigger] old(conversation).workflow.agents@[i],
                        evname,
                    ) implies ((conversation.turns@[i] >= old(conversation).turns@[i] + 1 || old(
                    conversation,
                ).turns@[i] == u64::MAX) && conversation.contexts@[i] is Some) by {
                    let j = choose|j: int| 0 <= j < entries@.len() && entries@[j] == i;
                    assert(entries@[j] == i);
                }
            }
        }
        match first_err {
            None => Ok(()),
            Some(e) => Err(e),
        }
    }

    /// Applies the agent's transforms in order: summarize an oversized
    /// transcript span by span, enrich the latest user message, or hand
    /// the transcript's text to another agent untouched. A transcript
    /// that opens with its system message keeps it.
    pub fn execute_transform(
        &mut self,
        conversation: &mut Conversation,
        transforms: &Vec<Transform>,
        context: Context,
        fuel: u64,
    ) -> (r: Result<Context, Error>)
        requires
            old(conversation).wf(),
            shaped(*old(conversation)),
            old(self).wf(),
        ensures
            final(conversation).wf(),
            shaped(*final(conversation)),
            conv_frame(*old(conversation), *final(conversation)),
            final(self).wf(),
            orch_advance(*old(self), *final(self)),
            (r is Ok ==> ({
                let pre = context.deep_view().messages;
                let post = r->Ok_0.deep_view().messages;
                (pre.len() > 0 && msg_has_role(pre[0], ChatRole::System)) ==> (post.len() > 0
                    && post[0] == pre[0])
            })),
            (r is Ok && (forall|k: int|
                0 <= k < transforms@.len() ==> (#[trigger] transforms@[k]) is PassThrough)
                ==> r->Ok_0.deep_view() == context.deep_view()),
            (r is Ok && transforms@.len() == 1 && transforms@[0] is User ==> ({
                let pre = context.deep_view().messages;
                let post = r->Ok_0.deep_view().messages;
                ||| post == pre
                ||| user_appended(pre, post, user_output(transforms@[0]))
            })),
            (r is Ok && (forall|k: int|
                0 <= k < transforms@.len() ==> !((#[trigger] transforms@[k]) is User))
                ==> last_user_content(r->Ok_0.deep_view().messages) == last_user_content(
                context.deep_view().messages,
            )),
            (transforms@.len() == 0 ==> ((r is Ok) && *final(self) == *old(self)
                && *final(conversation) == *old(conversation))),
            (r is Ok && transforms@.len() == 1 && transforms@[0] is PassThrough
                ==> agent_turn_rose(
                *old(conversation),
                *final(conversation),
                transform_agent(transforms@[0]),
            )),
            (r is Ok && transforms@.len() == 1 && transforms@[0] is User && ({
                let pre = context.deep_view().messages;
                pre.len() > 0 && is_user_msg(pre.last())
            }) ==> agent_turn_rose(
                *old(conversation),
                *final(conversation),
                transform_agent(transforms@[0]),
            )),
        decreases fuel,
    {
        if transforms.len() == 0 {
            return Ok(context);
        }
        if fuel == 0 {
            return Err(Error::RecursionLimit);
        }
        let ghost c0 = *conversation;
        let ghost s0 = *self;
        let ghost pre = context.deep_view().messages;
        let mut ctx = context;
        let mut ti: usize = 0;
        while ti < transforms.len()
            invariant
                0 <= ti <= transforms@.len(),
                fuel >= 1,
                conversation.wf(),
                shaped(*conversation),
                conv_frame(c0, *conversation),
                conv_frame(*old(conversation), *conversation),
                self.wf(),
                orch_advance(s0, *self),
                orch_advance(*old(self), *self),
                (pre.len() > 0 && msg_has_role(pre[0], ChatRole::System)) ==> ({
                    let ms = ctx.deep_view().messages;
                    ms.len() > 0 && ms[0] == pre[0]
                }),
                (forall|k: int|
                    0 <= k < transforms@.len() ==> (#[trigger] transforms@[k]) is PassThrough)
                    ==> ctx.deep_view() == context.deep_view(),
                (transforms@.len() == 1 && transforms@[0] is User) ==> ({
                    ||| ti == 0 && ctx.deep_view() == context.deep_view()
                    ||| ti == 1 && (ctx.deep_view().messages == context.deep_view().messages
                        || user_appended(
                        context.deep_view().messages,
                        ctx.deep_view().messages,
                        user_output(transforms@[0]),
                    ))
                }),
                (forall|k: int|
                    0 <= k < transforms@.len() ==> !((#[trigger] transforms@[k]) is User)) ==>
                    last_user_content(ctx.deep_view().messages) == last_user_content(
                    context.deep_view().messages,
                ),
                (transforms@.len() == 1 && ti == 1 && transforms@[0] is PassThrough)
                    ==> agent_turn_rose(c0, *conversation, transform_agent(transforms@[0])),
                (transforms@.len() == 1 && ti == 1 && transforms@[0] is User && ({
                    let pre = context.deep_view().messages;
                    pre.len() > 0 && is_user_msg(pre.last())
                })) ==> agent_turn_rose(c0, *conversation, transform_agent(transforms@[0])),
            decreases transforms@.len() - ti,
        {
            let ghost c2 = *conversation;
            let ghost s2 = *self;
            match &transforms[ti] {
                Transform::Assistant { agent_id, token_limit, input, output } => {
                    let limit: u64 = *token_limit;
                    let mut cursor: usize = 0;
                    let mut going = true;
                    while going
                        invariant
                            fuel >= 1,
                            transforms@.len() > 0,
                            cursor <= ctx.deep_view().messages.len(),
                            conversation.wf(),
                            shaped(*conversation),
                            conv_frame(c2, *conversation),
                            conv_frame(*old(conversation), *conversation),
                            self.wf(),
                            orch_advance(s2, *self),
                            orch_advance(*old(self), *self),
                            (pre.len() > 0 && msg_has_role(pre[0], ChatRole::System)) ==> ({
                                let ms = ctx.deep_view().messages;
                                ms.len() > 0 && ms[0] == pre[0]
                            }),
                            (forall|k: int|
                                0 <= k < transforms@.len() ==> !((#[trigger] transforms@[k]) is User))
                                ==> last_user_content(ctx.deep_view().messages)
                                == last_user_content(context.deep_view().messages),
                        decreases
                                ctx.deep_view().messages.len() - cursor,
                                (if going {
                                    1int
                                } else {
                                    0int
                                }),
                    {
                        if ctx.token_count() <= limit as u128 {
                            going = false;
                        } else {
                            match ctx.find_span(cursor) {
                                None => {
                                    going = false;
                                },
                                Some((s, e)) => {
                                    let text = ctx.span_text(s, e);
                                    let t = self.next_tick();
                                    let input_event = Event::new_name_value(
                                        input.clone(),
                                        text,
                                        t,
                                        t,
                                    );
                                    let ghost c3 = *conversation;
                                    let ghost s3 = *self;
                                    match self.init_agent(
                                        conversation,
                                        agent_id,
                                        &input_event,
                                        fuel - 1,
                                    ) {
                                        Ok(()) => {},
                                        Err(e) => {
                                            proof {
                                                lemma_frame_trans(c2, c3, *conversation);
                                                lemma_frame_trans(
                                                    *old(conversation),
                                                    c3,
                                                    *conversation,
                                                );
                                                lemma_advance_trans(s2, s3, *self);
                                                lemma_advance_trans(*old(self), s3, *self);
                                            }
                                            return Err(e);
                                        },
                                    }
                                    proof {
                                        lemma_frame_trans(c2, c3, *conversation);
                                        lemma_frame_trans(*old(conversation), c3, *conversation);
                                        lemma_advance_trans(s2, s3, *self);
                                        lemma_advance_trans(*old(self), s3, *self);
                                    }
                                    match self.get_last_event(conversation, output.as_str()) {
                                        Some(ev) => {
                                            let ghost before = ctx.deep_view().messages;
                                            let ghost uw = choose|u: int|
                                                e <= u < before.len() && is_user_msg(
                                                    #[trigger] before[u],
                                                ) && (forall|j: int|
                                                    u < j < before.len() ==> !is_user_msg(
                                                        #[trigger] before[j],
                                                    ));
                                            ctx = ctx.replace_span(s, e, ev.value);
                                            proof {
                                                if pre.len() > 0 && msg_has_role(
                                                    pre[0],
                                                    ChatRole::System,
                                                ) {
                                                    assert(s >= 1) by {
                                                        if s == 0 {
                                                            assert(!is_system_msg(before[0]));
                                                        }
                                                    }
                                                    assert(ctx.deep_view().messages[0]
                                                        == before[0]);
                                                }
                                                lemma_last_user_at(before, uw);
                                                let after = ctx.deep_view().messages;
                                                let uw2 = s + 1 + (uw - e);
                                                assert(after[uw2] == before[uw]);
                                                assert forall|j: int|
                                                    uw2 < j < after.len() implies !is_user_msg(
                                                    #[trigger] after[j],
                                                ) by {
                                                    assert(after[j] == before[j - uw2 + uw]);
                                                }
                                                lemma_last_user_at(after, uw2);
                                            }
                                            cursor = s + 1;
                                        },
                                        None => {
                                            cursor = e;
                                        },
                                    }
                                },
                            }
                        }
                    }
                },
                Transform::User { agent_id, output } => {
                    let n = ctx.messages.len();
                    let mut last_user_content: Option<String> = None;
                    if n > 0 {
                        match &ctx.messages[n - 1] {
                            ContextMessage::Content { role: ChatRole::User, content, .. } => {
                                last_user_content = Some(content.clone());
                            },
                            _ => {},
                        }
                    }
                    if let Some(base) = last_user_content {
                        let t = self.next_tick();
                        let task = Event::task_init(base.as_str(), t, t);
                        let ghost c3 = *conversation;
                        let ghost s3 = *self;
                        match self.init_agent(conversation, agent_id, &task, fuel - 1) {
                            Ok(()) => {},
                            Err(e) => {
                                proof {
                                    lemma_frame_trans(c2, c3, *conversation);
                                    lemma_frame_trans(*old(conversation), c3, *conversation);
                                    lemma_advance_trans(s2, s3, *self);
                                    lemma_advance_trans(*old(self), s3, *self);
                                }
                                return Err(e);
                            },
                        }
                        proof {
                            lemma_frame_trans(c2, c3, *conversation);
                            lemma_frame_trans(*old(conversation), c3, *conversation);
                            lemma_advance_trans(s2, s3, *self);
                            lemma_advance_trans(*old(self), s3, *self);
                        }
                        if let Some(out_ev) = self.get_last_event(conversation, output.as_str()) {
                            let mut appended = base;
                            appended.append("\n<");
                            appended.append(output.as_str());
                            appended.append(">\n");
                            appended.append(out_ev.value.as_str());
                            appended.append("\n</");
                            appended.append(output.as_str());
                            appended.append(">");
                            let ghost av = appended@;
                            let ghost before = ctx.deep_view().messages;
                            let mut msgs = ctx.messages;
                            msgs.pop();
                            msgs.push(ContextMessage::user(appended));
                            let rebuilt = Context { messages: msgs, tools: ctx.tools };
                            proof {
                                assert(rebuilt.deep_view().messages.len() == before.len());
                                assert(forall|j: int|
                                    0 <= j < before.len() - 1 ==> #[trigger] rebuilt.deep_view().messages[j]
                                        == before[j]);
                                assert(rebuilt.deep_view().messages.last() == (CtxMsgV::Content {
                                    role: ChatRole::User,
                                    content: av,
                                    tool_calls: Seq::<ToolCallV>::empty(),
                                }));
                                assert(av =~= crate::context::msg_content(before.last()) + "\n<"@
                                    + output@ + ">\n"@ + out_ev.value@ + "\n</"@ + output@
                                    + ">"@);
                                assert(user_appended(before, rebuilt.deep_view().messages, output@));
                                if before.len() > 0 && msg_has_role(before[0], ChatRole::System) {
                                    assert(before.len() >= 2) by {
                                        assert(is_user_msg(before[before.len() - 1]));
                                    }
                                    assert(rebuilt.deep_view().messages[0] == before[0]);
                                }
                            }
                            ctx = rebuilt;
                        }
                    }
                },
                Transform::PassThrough { agent_id, input } => {
                    let text = ctx.to_text();
                    let t = self.next_tick();
                    let input_event = Event::new_name_value(input.clone(), text, t, t);
                    let ghost c3 = *conversation;
                    let ghost s3 = *self;
                    match self.init_agent(conversation, agent_id, &input_event, fuel - 1) {
                        Ok(()) => {},
                        Err(e) => {
                            proof {
                                lemma_frame_trans(c2, c3, *conversation);
                                lemma_frame_trans(*old(conversation), c3, *conversation);
                                lemma_advance_trans(s2, s3, *self);
                                lemma_advance_trans(*old(self), s3, *self);
                            }
                            return Err(e);
                        },
                    }
                    proof {
                        lemma_frame_trans(c2, c3, *conversation);
                        lemma_frame_trans(*old(conversation), c3, *conversation);
                        lemma_advance_trans(s2, s3, *self);
                        lemma_advance_trans(*old(self), s3, *self);
                    }
                },
            }
            proof {
                lemma_prefix_trans(c0.events@, c2.events@, conversation.events@);
                lemma_prefix_trans(sink_seq(s0), sink_seq(s2), sink_seq(*self));
            }
            ti += 1;
        }
        Ok(ctx)
    }

    /// Runs one agent's whole turn for one event: choose or build the
    /// starting context, append the rendered user message, then loop —
    /// transforms, provider call, reassembly, tool execution — until an
    /// iteration produces no tool result; then raise the agent's turn
    /// counter by one.
    pub fn init_agent(
        &mut self,
        conversation: &mut Conversation,
        agent_id: &AgentId,
        event: &Event,
        fuel: u64,
    ) -> (r: Result<(), Error>)
        requires
            old(conversation).wf(),
            shaped(*old(conversation)),
            old(self).wf(),
        ensures
            final(conversation).wf(),
            shaped(*final(conversation)),
            conv_frame(*old(conversation), *final(conversation)),
            final(self).wf(),
            orch_advance(*old(self), *final(self)),
            (r is Ok ==> exists|i: int| {
                &&& 0 <= i < final(conversation).workflow.agents@.len()
                &&& (#[trigger] final(conversation).workflow.agents@[i]).id@ == agent_id@
                &&& final(conversation).turns@[i] >= old(conversation).turns@[i] + 1 || old(conversation).turns@[i] == u64::MAX
                &&& final(conversation).contexts@[i] is Some
            }),
            (r is Ok ==> exists|i: int, p: int| {
                &&& 0 <= i < final(conversation).workflow.agents@.len()
                &&& (#[trigger] final(conversation).workflow.agents@[i]).id@ == agent_id@
                &&& final(conversation).contexts@[i] is Some
                &&& old(self).services.provider_at <= p < final(self).services.provider_at
                &&& #[trigger] old(self).services.provider_replies@[p] is Stream
                &&& ({
                    let ms = old(self).services.provider_replies@[p]->Stream_0.deep_view();
                    let calls = spec_assemble(ms, registry_view(old(self).services));
                    let ctx = final(conversation).contexts@[i]->Some_0.deep_view().messages;
                    &&& calls is Some
                    &&& ctx.len() > 0
                    &&& ctx.last() == (CtxMsgV::Content {
                        role: ChatRole::Assistant,
                        content: crate::assembly::joined(ms),
                        tool_calls: calls->Some_0,
                    })
                    &&& (forall|q: int|
                        0 <= q < calls->Some_0.len() ==> crate::event::spec_event_parse(
                            #[trigger] calls->Some_0[q],
                        ) is Some)
                    &&& (final(conversation).workflow.agents@[i].ephemeral && old(self).services.render_at
                        < old(self).services.renders@.len() ==> ctx[0] == (CtxMsgV::Content {
                        role: ChatRole::System,
                        content: old(self).services.renders@[old(self).services.render_at as int]@,
                        tool_calls: Seq::<ToolCallV>::empty(),
                    }))
                })
            }),
            (fuel == 0 ==> r matches Err(Error::RecursionLimit)),
            (fuel > 0 && (forall|j: int|
                0 <= j < final(conversation).workflow.agents@.len() ==> (#[trigger] final(conversation).workflow.agents@[j]).id@ != agent_id@) ==> r matches Err(
                Error::AgentNotFound(_),
            )),
            (fuel > 0 && simple_turn_ready(old(self).services, *old(conversation), agent_id@)
                ==> r is Ok),
        decreases fuel,
    {
        if fuel == 0 {
            return Err(Error::RecursionLimit);
        }
        let idx = match conversation.workflow.agent_index(agent_id) {
            Some(i) => i,
            None => {
                return Err(Error::AgentNotFound(agent_id.duplicate()));
            },
        };
        let agent = conversation.workflow.agents[idx].duplicate();
        let mut context: Context;
        if agent.ephemeral {
            context = self.init_agent_context(&agent);
        } else {
            let stored = match conversation.context_of(idx) {
                Some(c) => Some(c.duplicate()),
                None => None,
            };
            context = match stored {
                Some(c) => c,
                None => self.init_agent_context(&agent),
            };
        }
        let mut user_context = UserContext::new(event.duplicate());
        if agent.suggestions {
            let suggestions = self.init_suggestions();
            user_context = user_context.suggestions(suggestions);
        }
        let content = self.services.render_user(&agent.user_prompt, &user_context);
        context = context.add_message(ContextMessage::user(content));
        let ghost c0 = *conversation;
        let ghost s0 = *self;
        let mut done = false;
        let mut persisted = false;
        while !done
            invariant
                fuel >= 1,
                conversation.wf(),
                shaped(*conversation),
                conv_frame(c0, *conversation),
                conv_frame(*old(conversation), *conversation),
                c0 == *old(conversation),
                self.wf(),
                orch_advance(s0, *self),
                orch_advance(*old(self), *self),
                idx < conversation.workflow.agents@.len(),
                conversation.workflow.agents@[idx as int].id@ == agent_id@,
                agent.id@ == agent_id@,
                agent.ephemeral == conversation.workflow.agents@[idx as int].ephemeral,
                agent.transforms@ == conversation.workflow.agents@[idx as int].transforms@,
                s0.services.provider_at == old(self).services.provider_at,
                !persisted ==> *self == s0 && *conversation == c0,
                (fuel > 0 && simple_turn_ready(old(self).services, c0, agent_id@)) ==> (persisted
                    ==> done),
                persisted ==> conversation.contexts@[idx as int] is Some,
                ({
                    let ms = context.deep_view().messages;
                    ms.len() > 0 && msg_has_role(ms[0], ChatRole::System)
                }),
                (agent.ephemeral && old(self).services.render_at < old(self).services.renders@.len())
                    ==> context.deep_view().messages[0] == (CtxMsgV::Content {
                    role: ChatRole::System,
                    content: old(self).services.renders@[old(self).services.render_at as int]@,
                    tool_calls: Seq::<ToolCallV>::empty(),
                }),
                done ==> persisted,
                done ==> exists|p: int| {
                    &&& s0.services.provider_at <= p < self.services.provider_at
                    &&& #[trigger] s0.services.provider_replies@[p] is Stream
                    &&& ({
                        let ms = s0.services.provider_replies@[p]->Stream_0.deep_view();
                        let calls = spec_assemble(ms, registry_view(s0.services));
                        let ctx = conversation.contexts@[idx as int]->Some_0.deep_view().messages;
                        &&& calls is Some
                        &&& ctx.len() > 0
                        &&& ctx == context.deep_view().messages
                        &&& ctx.last() == (CtxMsgV::Content {
                            role: ChatRole::Assistant,
                            content: crate::assembly::joined(ms),
                            tool_calls: calls->Some_0,
                        })
                        &&& (forall|q: int|
                            0 <= q < calls->Some_0.len() ==> crate::event::spec_event_parse(
                                #[trigger] calls->Some_0[q],
                            ) is Some)
                    })
                },
            decreases self.services.provider_replies@.len() - self.services.provider_at,
        {
            let ghost c2 = *conversation;
            let ghost s2 = *self;
            proof {
                if fuel > 0 && simple_turn_ready(old(self).services, c0, agent_id@) {
                    assert(!persisted && *self == s0 && *conversation == c0);
                    let iw = choose|iw: int|
                        0 <= iw < c0.workflow.agents@.len() && (
                        #[trigger] c0.workflow.agents@[iw]).id@ == agent_id@
                            && c0.workflow.agents@[iw].transforms@.len() == 0;
                    assert(iw == idx as int) by {
                        if iw != idx as int {
                            assert(conversation.workflow.agents@[iw].id@
                                != conversation.workflow.agents@[idx as int].id@);
                        }
                    }
                    assert(agent.transforms@.len() == 0);
                }
            }
            context = match self.execute_transform(conversation, &agent.transforms, context, fuel - 1) {
                Ok(c) => c,
                Err(e) => {
                    proof {
                        lemma_prefix_trans(c0.events@, c2.events@, conversation.events@);
                        lemma_prefix_trans(sink_seq(s0), sink_seq(s2), sink_seq(*self));
                    }
                    return Err(e);
                },
            };
            proof {
                lemma_prefix_trans(c0.events@, c2.events@, conversation.events@);
                lemma_prefix_trans(sink_seq(s0), sink_seq(s2), sink_seq(*self));
                if fuel > 0 && simple_turn_ready(old(self).services, c0, agent_id@) {
                    assert(self.services.provider_at == old(self).services.provider_at);
                }
            }
            let ghost q0 = self.services.provider_at as int;
            let reply = self.services.next_provider();
            let messages = match reply {
                None => {
                    return Err(Error::ProviderError(String::from_str(
                        "the provider script is exhausted",
                    )));
                },
                Some(crate::services::ProviderReply::Failure(m)) => {
                    return Err(Error::ProviderError(m));
                },
                Some(crate::services::ProviderReply::Cancelled(chunks)) => {
                    self.emit_stream(&agent.id, &chunks);
                    proof {
                        lemma_prefix_trans(sink_seq(s0), sink_seq(s2), sink_seq(*self));
                    }
                    return Err(Error::Cancelled);
                },
                Some(crate::services::ProviderReply::Stream(m)) => m,
            };
            proof {
                assert(s0.services.provider_at <= q0 < self.services.provider_at);
                assert(s0.services.provider_replies@[q0] is Stream
                    && s0.services.provider_replies@[q0]->Stream_0.deep_view()
                    == messages.deep_view()) by {
                    assert(s0.services.provider_replies@[q0].deep_view()
                        == crate::services::ProviderReplyV::Stream(messages.deep_view()));
                }
            }
            let ghost sc = *self;
            let collected = match self.collect_messages(&agent.id, &messages) {
                Ok(c) => c,
                Err(e) => {
                    proof {
                        lemma_prefix_trans(sink_seq(s0), sink_seq(s2), sink_seq(*self));
                        if fuel > 0 && simple_turn_ready(old(self).services, c0, agent_id@) {
                            assert(registry_view(sc.services) == registry_view(
                                old(self).services,
                            )) by {
                                assert(sc.services.tools == old(self).services.tools);
                            }
                        }
                    }
                    return Err(e);
                },
            };
            proof {
                lemma_prefix_trans(sink_seq(s0), sink_seq(s2), sink_seq(*self));
            }
            let ChatCompletionResult { content: text, tool_calls } = collected;
            let ghost tv = text@;
            let ghost c4 = *conversation;
            let ghost s4 = *self;
            proof {
                if fuel > 0 && simple_turn_ready(old(self).services, c0, agent_id@) {
                    assert(registry_view(sc.services) == registry_view(old(self).services)) by {
                        assert(sc.services.tools == old(self).services.tools);
                    }
                    assert(tool_calls.deep_view() =~= Seq::<ToolCallV>::empty());
                    assert(tool_calls@.len() == 0);
                }
            }
            let mut tool_results: Vec<ToolResult> = Vec::new();
            let mut ci: usize = 0;
            while ci < tool_calls.len()
                invariant
                    0 <= ci <= tool_calls@.len(),
                    (fuel > 0 && simple_turn_ready(
                        old(self).services,
                        *old(conversation),
                        agent_id@,
                    )) ==> tool_calls@.len() == 0 && tool_results@.len() == 0,
                    fuel >= 1,
                    conversation.wf(),
                    shaped(*conversation),
                    conv_frame(c4, *conversation),
                    conv_frame(*old(conversation), *conversation),
                    self.wf(),
                    orch_advance(s4, *self),
                    orch_advance(*old(self), *self),
                    results_match(tool_results.deep_view(), tool_calls.deep_view()),
                    tool_results@.len() == 0 ==> forall|j: int|
                        0 <= j < ci ==> crate::event::spec_event_parse(
                            #[trigger] tool_calls.deep_view()[j],
                        ) is Some,
                    agent.id@ == agent_id@,
                    idx < conversation.workflow.agents@.len(),
                    conversation.workflow.agents@[idx as int].id@ == agent_id@,
                decreases tool_calls@.len() - ci,
            {
                let ghost c5 = *conversation;
                let ghost s5 = *self;
                let call_copy = tool_calls[ci].duplicate();
                self.send(&agent.id, ChatResponse::ToolCallStart(call_copy));
                let ghost s6 = *self;
                proof {
                    lemma_advance_step(s5, s6);
                }
                match self.execute_tool(conversation, &agent.id, &tool_calls[ci], fuel - 1) {
                    Ok(Some(tool_result)) => {
                        let ghost prevr = tool_results.deep_view();
                        tool_results.push(tool_result.duplicate());
                        proof {
                            assert(tool_results.deep_view() =~~= prevr.push(
                                tool_result_view(tool_result),
                            ));
                            assert forall|j: int|
                                0 <= j < tool_results.deep_view().len() implies exists|i: int|
                                0 <= i < tool_calls.deep_view().len() && (
                                #[trigger] tool_calls.deep_view()[i]).name == (
                                #[trigger] tool_results.deep_view()[j]).name
                                    && tool_calls.deep_view()[i].call_id
                                    == tool_results.deep_view()[j].call_id by {
                                if j < prevr.len() {
                                    assert(prevr[j] == tool_results.deep_view()[j]);
                                } else {
                                    assert(tool_calls.deep_view()[ci as int].name
                                        == tool_results.deep_view()[j].name);
                                    assert(tool_calls.deep_view()[ci as int].call_id
                                        == tool_results.deep_view()[j].call_id);
                                }
                            }
                        }
                        let ghost s7 = *self;
                        proof {
                            lemma_advance_trans(s5, s6, s7);
                        }
                        self.send(&agent.id, ChatResponse::ToolCallEnd(tool_result));
                        proof {
                            lemma_advance_step(s7, *self);
                            lemma_advance_trans(s5, s7, *self);
                        }
                    },
                    Ok(None) => {
                        proof {
                            lemma_advance_trans(s5, s6, *self);
                            assert(tool_calls.deep_view()[ci as int] == tool_calls@[ci as int]@);
                        }
                    },
                    Err(e) => {
                        proof {
                            lemma_advance_trans(s5, s6, *self);
                            lemma_frame_trans(c4, c5, *conversation);
                            lemma_frame_trans(*old(conversation), c5, *conversation);
                            lemma_advance_trans(s4, s5, *self);
                            lemma_advance_trans(*old(self), s5, *self);
                        }
                        return Err(e);
                    },
                }
                proof {
                    lemma_frame_trans(c4, c5, *conversation);
                    lemma_frame_trans(*old(conversation), c5, *conversation);
                    lemma_advance_trans(s4, s5, *self);
                    lemma_advance_trans(*old(self), s5, *self);
                }
                ci += 1;
            }
            proof {
                lemma_prefix_trans(c0.events@, c4.events@, conversation.events@);
                lemma_prefix_trans(sink_seq(s0), sink_seq(s4), sink_seq(*self));
            }
            let results_empty = tool_results.len() == 0;
            let ghost prem = context.deep_view().messages;
            let ghost cv = tool_calls.deep_view();
            let ghost rv = tool_results.deep_view();
            context = context.add_message(ContextMessage::assistant(text, tool_calls));
            context = context.add_tool_results(tool_results);
            proof {
                let ms = context.deep_view().messages;
                let k = prem.len() as int;
                assert(ms.len() == prem.len() + 1 + rv.len());
                assert(msg_has_role(ms[k], ChatRole::Assistant));
                assert(crate::context::msg_tool_calls(ms[k]) == cv);
                assert forall|j: int| k < j < ms.len() implies crate::context::msg_answers(
                    ms[j],
                    ms[k],
                ) by {
                    assert(ms[j] == CtxMsgV::Tool { result: rv[j - k - 1] });
                    assert(exists|i: int|
                        0 <= i < cv.len() && (#[trigger] cv[i]).name == rv[j - k - 1].name && cv[i].call_id
                            == rv[j - k - 1].call_id);
                }
                assert(tail_shape(ms));
                assert(ms[0] == prem[0]);
            }
            let stored_copy = context.duplicate();
            let ghost c6 = *conversation;
            conversation.set_context(idx, stored_copy);
            persisted = true;
            proof {
                assert(shaped(*conversation)) by {
                    assert forall|i: int|
                        0 <= i < conversation.contexts@.len() && (
                        #[trigger] conversation.contexts@[i]) is Some implies {
                        let ms = conversation.contexts@[i]->Some_0.deep_view().messages;
                        tail_shape(ms) && ms.len() > 0 && msg_has_role(ms[0], ChatRole::System)
                    } by {
                        if i == idx as int {
                            assert(conversation.contexts@[i]->Some_0.deep_view()
                                == context.deep_view());
                        } else {
                            assert(conversation.contexts@[i] == c6.contexts@[i]);
                        }
                    }
                }
            }
            if results_empty {
                done = true;
                proof {
                    let calls = spec_assemble(messages.deep_view(), registry_view(s0.services));
                    assert(registry_view(sc.services) == registry_view(s0.services)) by {
                        assert(sc.services.tools == s0.services.tools);
                    }
                    assert(calls == Some(cv));
                    assert(rv.len() == 0);
                    assert(context.deep_view().messages =~= prem.push(
                        CtxMsgV::Content { role: ChatRole::Assistant, content: tv, tool_calls: cv },
                    ));
                    assert(tv == crate::assembly::joined(messages.deep_view()));
                    assert(conversation.contexts@[idx as int]->Some_0.deep_view()
                        == context.deep_view());
                    assert(forall|q2: int|
                        0 <= q2 < cv.len() ==> crate::event::spec_event_parse(
                            #[trigger] cv[q2],
                        ) is Some);
                    assert(({
                        let ms = s0.services.provider_replies@[q0]->Stream_0.deep_view();
                        let calls2 = spec_assemble(ms, registry_view(s0.services));
                        let ctx = conversation.contexts@[idx as int]->Some_0.deep_view().messages;
                        &&& s0.services.provider_at <= q0 < self.services.provider_at
                        &&& s0.services.provider_replies@[q0] is Stream
                        &&& calls2 is Some
                        &&& ctx.len() > 0
                        &&& ctx == context.deep_view().messages
                        &&& ctx.last() == (CtxMsgV::Content {
                            role: ChatRole::Assistant,
                            content: crate::assembly::joined(ms),
                            tool_calls: calls2->Some_0,
                        })
                        &&& (forall|q2: int|
                            0 <= q2 < calls2->Some_0.len() ==> crate::event::spec_event_parse(
                                #[trigger] calls2->Some_0[q2],
                            ) is Some)
                    }));
                }
            }
        }
        let ghost before_inc = *conversation;
        conversation.inc_turn(idx);
        proof {
            assert(conv_frame(c0, *conversation));
            assert(shaped(*conversation));
            assert(conversation.contexts@[idx as int] is Some);
            assert(conversation.turns@[idx as int] >= c0.turns@[idx as int] + 1
                || c0.turns@[idx as int] == u64::MAX);
        }
        Ok(())
    }

    /// Serves one user request: synthesizes the dispatch event for the
    /// request's conversation and fans it out. The conversation must be
    /// known to the store; everything else in the store stays untouched.
    pub fn execute(&mut self, store: &mut ConversationStore) -> (r: Result<(), Error>)
        requires
            old(self).wf(),
            old(store).wf(),
            store_shaped(*old(store)),
        ensures
            final(store).wf(),
            store_shaped(*final(store)),
            final(self).wf(),
            orch_advance(*old(self), *final(self)),
            final(store).conversations@.len() == old(store).conversations@.len(),
            ((forall|j: int|
                0 <= j < old(store).conversations@.len() ==> (
                #[trigger] old(store).conversations@[j]).id != old(self).chat_request.conversation_id)
                ==> ((r matches Err(Error::ConversationNotFound(_))) && final(store).conversations@ == old(store).conversations@)),
            (forall|i: int|
                0 <= i < old(store).conversations@.len() && (#[trigger] old(store).conversations@[i]).id
                    == old(self).chat_request.conversation_id && dispatch_ready(
                    *old(self),
                    old(store).conversations@[i],
                    if has_task_init(old(store).conversations@[i].events@) {
                        crate::event::task_update_name()
                    } else {
                        crate::event::task_init_name()
                    },
                ) ==> r is Ok),
            ((exists|j: int|
                0 <= j < old(store).conversations@.len() && (
                #[trigger] old(store).conversations@[j]).id == old(self).chat_request.conversation_id) ==> exists|i: int| {
                &&& 0 <= i < old(store).conversations@.len()
                &&& (#[trigger] old(store).conversations@[i]).id == old(self).chat_request.conversation_id
                &&& conv_frame(old(store).conversations@[i], final(store).conversations@[i])
                &&& final(store).conversations@[i].events@.len() > old(store).conversations@[i].events@.len()
                &&& forall|j: int|
                    0 <= j < old(store).conversations@.len() && j != i ==> final(store).conversations@[j] == old(store).conversations@[j]
            }),
    {
        let cid = self.chat_request.conversation_id;
        let i = match store.find(cid) {
            Some(i) => i,
            None => {
                return Err(Error::ConversationNotFound(cid));
            },
        };
        let ghost pre = store.conversations@;
        let conversation = vstd::std_specs::vec::vec_index_mut(&mut store.conversations, i);
        let ghost cpre = *conversation;
        let event = self.init_dispatch_event(conversation);
        let ghost evg = event;
        let ghost pre_ev = conversation.events@;
        let ghost sd = *self;
        let outcome = self.dispatch(conversation, event, DISPATCH_FUEL);
        proof {
            let namef = if has_task_init(pre[i as int].events@) {
                crate::event::task_update_name()
            } else {
                crate::event::task_init_name()
            };
            if dispatch_ready(*old(self), pre[i as int], namef) {
                assert(dispatch_ready(sd, cpre, evg.name@)) by {
                    let iw = choose|iw: int| sole_ready_subscriber(
                        *old(self),
                        pre[i as int],
                        namef,
                        iw,
                    );
                    assert(sd.services == old(self).services);
                    assert(cpre == pre[i as int]);
                    assert(evg.name@ == namef);
                    assert(sole_ready_subscriber(sd, cpre, evg.name@, iw));
                }
                assert(outcome is Ok);
            }
            assert forall|i2: int|
                0 <= i2 < pre.len() && pre[i2].id == old(self).chat_request.conversation_id
                    && dispatch_ready(
                    *old(self),
                    pre[i2],
                    if has_task_init(pre[i2].events@) {
                        crate::event::task_update_name()
                    } else {
                        crate::event::task_init_name()
                    },
                ) implies outcome is Ok by {
                assert(i2 == i as int) by {
                    if i2 != i as int {
                        assert(pre[i2].id != pre[i as int].id);
                    }
                }
            }
            assert(pre_ev.push(evg).is_prefix_of(conversation.events@));
            assert(conversation.events@[pre_ev.len() as int] == pre_ev.push(evg)[pre_ev.len() as int])
                by {
                assert(conversation.events@.subrange(0, pre_ev.len() as int + 1) == pre_ev.push(
                    evg,
                ));
            }
            assert(store.conversations@ =~= pre.update(i as int, store.conversations@[i as int]));
            let fin = store.conversations@[i as int];
            assert(forall|j: int|
                0 <= j < pre.len() && j != i as int ==> #[trigger] store.conversations@[j]
                    == pre[j]);
            assert(conv_frame(pre[i as int], fin));
            assert(store.wf()) by {
                assert(fin.id == pre[i as int].id);
            }
            assert(store_shaped(*store));
            assert(fin.events@.len() > pre[i as int].events@.len()) by {
                assert(pre[i as int].events@.push(event).len() <= fin.events@.len());
            }
        }
        match outcome {
            Ok(()) => Ok(()),
            Err(e) => Err(e),
        }
    }
}

/// Every conversation in the store has well shaped stored contexts.
pub open spec fn store_shaped(s: ConversationStore) -> bool {
    forall|i: int|
        0 <= i < s.conversations@.len() ==> shaped(#[trigger] s.conversations@[i])
}

} // verus!
