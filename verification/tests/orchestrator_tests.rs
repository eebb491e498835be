use forge_domain::chat::{
    AgentMessage, ChatCompletionMessage, ChatRequest, ChatResponse, ToolCallPart, Usage,
};
use forge_domain::context::{Context, ContextMessage};
use forge_domain::conversation::ConversationStore;
use forge_domain::error::Error;
use forge_domain::orch::Orchestrator;
use forge_domain::services::{ProviderReply, Services, SystemContext, ToolReply};
use forge_domain::tool::{ToolCallFull, ToolCallId, ToolDefinition, ToolName};
use forge_domain::workflow::{Agent, AgentId, ModelId, Template, Transform, Workflow};
use forge_domain::ChatRole;

fn agent(id: &str, subscribe: &[&str]) -> Agent {
    let mut a = Agent::new(AgentId::new(id), ModelId::new("test-model"));
    for s in subscribe {
        a.subscribe.push(String::from(*s));
    }
    a.system_prompt = Template::new("system prompt");
    a.user_prompt = Template::new("{{event.value}}");
    a
}

fn tool_def(name: &str) -> ToolDefinition {
    ToolDefinition {
        name: ToolName::new(name),
        description: String::from("a tool"),
        usage_prompt: String::from("use it well"),
        arg_names: Vec::new(),
    }
}

fn text_chunk(s: &str) -> ChatCompletionMessage {
    ChatCompletionMessage::text(String::from(s))
}

fn services(
    provider: Vec<ProviderReply>,
    tools: Vec<ToolReply>,
    renders: Vec<&str>,
    registry: Vec<ToolDefinition>,
) -> Services {
    Services::new(
        provider,
        tools,
        renders.into_iter().map(String::from).collect(),
        registry,
        true,
        Vec::new(),
    )
}

fn orchestrator(svc: Services, store: &mut ConversationStore, workflow: Workflow, input: &str) -> Orchestrator {
    let cid = store.create(workflow);
    Orchestrator::new(
        svc,
        ChatRequest::new(String::from(input), cid),
        SystemContext::new(),
        Some(Vec::new()),
    )
}

fn sink(orch: &Orchestrator) -> &Vec<AgentMessage<ChatResponse>> {
    orch.sink.as_ref().expect("a sink is attached")
}

fn messages_of(store: &ConversationStore, agent_idx: usize) -> &Vec<ContextMessage> {
    let ctx: &Context = store.conversations[0].contexts[agent_idx]
        .as_ref()
        .expect("a context was stored");
    &ctx.messages
}

#[test]
fn simple_echo() {
    let mut wf = Workflow::new();
    assert!(wf.add_agent(agent("A", &["user_task_init"])));
    let svc = services(
        vec![ProviderReply::Stream(vec![text_chunk("hello")])],
        Vec::new(),
        vec!["rendered system", "hello"],
        Vec::new(),
    );
    let mut store = ConversationStore::new();
    let mut orch = orchestrator(svc, &mut store, wf, "hello");
    orch.execute(&mut store).expect("the turn completes");

    let out = sink(&orch);
    assert_eq!(out.len(), 1);
    assert_eq!(out[0].agent.text, "A");
    match &out[0].message {
        ChatResponse::Text(t) => assert_eq!(t, "hello"),
        other => panic!("unexpected sink message {:?}", other),
    }
    let ms = messages_of(&store, 0);
    assert_eq!(ms.len(), 3);
    assert!(matches!(&ms[0], ContextMessage::Content { role: ChatRole::System, .. }));
    match &ms[1] {
        ContextMessage::Content { role: ChatRole::User, content, .. } => {
            assert_eq!(content, "hello")
        }
        other => panic!("unexpected message {:?}", other),
    }
    match &ms[2] {
        ContextMessage::Content { role: ChatRole::Assistant, content, tool_calls } => {
            assert_eq!(content, "hello");
            assert!(tool_calls.is_empty());
        }
        other => panic!("unexpected message {:?}", other),
    }
    assert_eq!(store.conversations[0].turns[0], 1);
    assert_eq!(store.conversations[0].events.len(), 1);
    assert_eq!(store.conversations[0].events[0].name, "user_task_init");
}

#[test]
fn tool_call_then_answer() {
    let mut wf = Workflow::new();
    let mut a = agent("A", &["user_task_init"]);
    a.tools.push(ToolName::new("clock.now"));
    assert!(wf.add_agent(a));
    let call = ToolCallFull {
        call_id: Some(ToolCallId::new("c1")),
        name: ToolName::new("clock.now"),
        arguments: Vec::new(),
    };
    let first = ChatCompletionMessage {
        content: None,
        tool_call: vec![ToolCallPart::Full(call)],
        usage: None,
    };
    let svc = services(
        vec![
            ProviderReply::Stream(vec![first]),
            ProviderReply::Stream(vec![text_chunk("It is 12:00")]),
        ],
        vec![ToolReply { content: String::from("12:00"), is_error: false }],
        vec!["sys", "user"],
        vec![tool_def("clock.now")],
    );
    let mut store = ConversationStore::new();
    let mut orch = orchestrator(svc, &mut store, wf, "what time is it");
    orch.execute(&mut store).expect("the turn completes");

    let out = sink(&orch);
    assert_eq!(out.len(), 3);
    assert!(matches!(&out[0].message, ChatResponse::ToolCallStart(c) if c.name.text == "clock.now"));
    match &out[1].message {
        ChatResponse::ToolCallEnd(r) => {
            assert_eq!(r.content, "12:00");
            assert!(!r.is_error);
            assert_eq!(r.call_id.as_ref().map(|c| c.text.as_str()), Some("c1"));
        }
        other => panic!("unexpected sink message {:?}", other),
    }
    assert!(matches!(&out[2].message, ChatResponse::Text(t) if t == "It is 12:00"));
    // the inner loop executed exactly twice
    assert_eq!(orch.services.provider_at, 2);
    let ms = messages_of(&store, 0);
    assert_eq!(ms.len(), 5);
    assert!(matches!(&ms[2], ContextMessage::Content { role: ChatRole::Assistant, tool_calls, .. } if tool_calls.len() == 1));
    assert!(matches!(&ms[3], ContextMessage::Tool { result } if result.content == "12:00"));
    assert!(matches!(&ms[4], ContextMessage::Content { role: ChatRole::Assistant, content, .. } if content == "It is 12:00"));
    assert_eq!(store.conversations[0].turns[0], 1);
}

#[test]
fn xml_embedded_tool() {
    let mut wf = Workflow::new();
    let mut a = agent("A", &["user_task_init"]);
    a.tools.push(ToolName::new("clock_now"));
    assert!(wf.add_agent(a));
    let svc = services(
        vec![
            ProviderReply::Stream(vec![text_chunk("<clock_now></clock_now>")]),
            ProviderReply::Stream(vec![text_chunk("It is 12:00")]),
        ],
        vec![ToolReply { content: String::from("12:00"), is_error: false }],
        vec!["sys", "user"],
        vec![tool_def("clock_now")],
    );
    let mut store = ConversationStore::new();
    let mut orch = orchestrator(svc, &mut store, wf, "time?");
    orch.execute(&mut store).expect("the turn completes");

    let out = sink(&orch);
    assert_eq!(out.len(), 4);
    assert!(matches!(&out[0].message, ChatResponse::Text(t) if t == "<clock_now></clock_now>"));
    assert!(matches!(&out[1].message, ChatResponse::ToolCallStart(c) if c.name.text == "clock_now"));
    assert!(matches!(&out[2].message, ChatResponse::ToolCallEnd(r) if r.content == "12:00"));
    assert!(matches!(&out[3].message, ChatResponse::Text(t) if t == "It is 12:00"));
    assert_eq!(store.conversations[0].turns[0], 1);
}

#[test]
fn event_dispatch_via_tool() {
    let mut wf = Workflow::new();
    assert!(wf.add_agent(agent("A", &["user_task_init"])));
    assert!(wf.add_agent(agent("R", &["review"])));
    let dispatch_call = ToolCallFull {
        call_id: None,
        name: ToolName::new("dispatch"),
        arguments: vec![
            (String::from("name"), String::from("review")),
            (String::from("value"), String::from("\"see code\"")),
        ],
    };
    let first = ChatCompletionMessage {
        content: None,
        tool_call: vec![ToolCallPart::Full(dispatch_call)],
        usage: None,
    };
    let svc = services(
        vec![
            ProviderReply::Stream(vec![first]),
            ProviderReply::Stream(vec![text_chunk("reviewed")]),
        ],
        Vec::new(),
        vec!["a sys", "a user", "r sys", "r user"],
        Vec::new(),
    );
    let mut store = ConversationStore::new();
    let mut orch = orchestrator(svc, &mut store, wf, "start");
    orch.execute(&mut store).expect("the turn completes");

    // no tool result was appended to A's context: one provider call only
    let a_ms = messages_of(&store, 0);
    assert_eq!(a_ms.len(), 3);
    assert!(matches!(&a_ms[2], ContextMessage::Content { role: ChatRole::Assistant, tool_calls, .. } if tool_calls.len() == 1));
    // R's turn ran to completion
    assert_eq!(store.conversations[0].turns[1], 1);
    assert_eq!(store.conversations[0].turns[0], 1);
    // the event log holds the task event, then the dispatched one
    let events = &store.conversations[0].events;
    assert_eq!(events.len(), 2);
    assert_eq!(events[0].name, "user_task_init");
    assert_eq!(events[1].name, "review");
    assert_eq!(events[1].value, "\"see code\"");
}

#[test]
fn summarization_transform() {
    let mut wf = Workflow::new();
    let mut a = agent("A", &["user_task_init"]);
    a.transforms.push(Transform::Assistant {
        agent_id: AgentId::new("S"),
        token_limit: 100,
        input: String::from("sum_in"),
        output: String::from("sum_out"),
    });
    assert!(wf.add_agent(a));
    assert!(wf.add_agent(agent("S", &[])));

    // S answers by dispatching a summary event of twenty characters.
    let summary = "a twenty char summar";
    assert_eq!(summary.len(), 20);
    let emit = ToolCallFull {
        call_id: None,
        name: ToolName::new("dispatch"),
        arguments: vec![
            (String::from("name"), String::from("sum_out")),
            (String::from("value"), String::from(summary)),
        ],
    };
    let s_reply = ChatCompletionMessage {
        content: None,
        tool_call: vec![ToolCallPart::Full(emit)],
        usage: None,
    };
    let svc = services(
        vec![
            ProviderReply::Stream(vec![s_reply]),
            ProviderReply::Stream(vec![text_chunk("done")]),
        ],
        Vec::new(),
        vec!["hello", "s sys", "s user"],
        Vec::new(),
    );
    let mut store = ConversationStore::new();
    let mut orch = orchestrator(svc, &mut store, wf, "hello");

    // seed A's stored context with five hundred tokens of history
    let seeded = Context::new()
        .add_message(ContextMessage::system("x".repeat(10)))
        .add_message(ContextMessage::user("y".repeat(240)))
        .add_message(ContextMessage::assistant("z".repeat(240), Vec::new()))
        .add_message(ContextMessage::user("w".repeat(10)));
    assert_eq!(seeded.token_count(), 500);
    store.conversations[0].contexts[0] = Some(seeded);

    orch.execute(&mut store).expect("the turn completes");

    let ctx = store.conversations[0].contexts[0].as_ref().expect("stored");
    assert!(ctx.token_count() <= 100);
    // the user's latest turn message survived the compression
    let has_latest = ctx.messages.iter().any(|m| {
        matches!(m, ContextMessage::Content { role: ChatRole::User, content, .. } if content == "hello")
    });
    assert!(has_latest);
    // the span was replaced by the twenty character summary
    let has_summary = ctx.messages.iter().any(|m| {
        matches!(m, ContextMessage::Content { role: ChatRole::Assistant, content, .. } if content == summary)
    });
    assert!(has_summary);
    assert_eq!(store.conversations[0].turns[0], 1);
    assert_eq!(store.conversations[0].turns[1], 1);
}

#[test]
fn cancellation_mid_stream() {
    let mut wf = Workflow::new();
    assert!(wf.add_agent(agent("A", &["user_task_init"])));
    let svc = services(
        vec![ProviderReply::Cancelled(vec![text_chunk("one"), text_chunk("two")])],
        Vec::new(),
        vec!["sys", "user"],
        Vec::new(),
    );
    let mut store = ConversationStore::new();
    let mut orch = orchestrator(svc, &mut store, wf, "hello");
    match orch.execute(&mut store) {
        Err(Error::Cancelled) => {}
        other => panic!("expected cancellation, got {:?}", other),
    }
    // the two chunks reached the sink, nothing after them
    let out = sink(&orch);
    assert_eq!(out.len(), 2);
    assert!(matches!(&out[0].message, ChatResponse::Text(t) if t == "one"));
    assert!(matches!(&out[1].message, ChatResponse::Text(t) if t == "two"));
    // the context was not persisted and the turn did not complete
    assert!(store.conversations[0].contexts[0].is_none());
    assert_eq!(store.conversations[0].turns[0], 0);
    // the triggering event stays in the log
    assert_eq!(store.conversations[0].events.len(), 1);
}

#[test]
fn usage_only_stream_ends_the_turn() {
    let mut wf = Workflow::new();
    assert!(wf.add_agent(agent("A", &["user_task_init"])));
    let usage = ChatCompletionMessage::usage(Usage { prompt_tokens: 5, completion_tokens: 0 });
    let svc = services(
        vec![ProviderReply::Stream(vec![usage])],
        Vec::new(),
        vec!["sys", "user"],
        Vec::new(),
    );
    let mut store = ConversationStore::new();
    let mut orch = orchestrator(svc, &mut store, wf, "hi");
    orch.execute(&mut store).expect("the turn completes");
    let out = sink(&orch);
    assert_eq!(out.len(), 1);
    assert!(matches!(&out[0].message, ChatResponse::Usage(u) if u.prompt_tokens == 5));
    let ms = messages_of(&store, 0);
    assert!(matches!(&ms[2], ContextMessage::Content { role: ChatRole::Assistant, content, tool_calls } if content.is_empty() && tool_calls.is_empty()));
    assert_eq!(orch.services.provider_at, 1);
    assert_eq!(store.conversations[0].turns[0], 1);
}

#[test]
fn tool_call_without_text_keeps_empty_content() {
    let mut wf = Workflow::new();
    let mut a = agent("A", &["user_task_init"]);
    a.tools.push(ToolName::new("clock.now"));
    assert!(wf.add_agent(a));
    let call = ToolCallFull {
        call_id: Some(ToolCallId::new("c1")),
        name: ToolName::new("clock.now"),
        arguments: Vec::new(),
    };
    let first = ChatCompletionMessage {
        content: None,
        tool_call: vec![ToolCallPart::Full(call)],
        usage: None,
    };
    let svc = services(
        vec![
            ProviderReply::Stream(vec![first]),
            ProviderReply::Stream(vec![text_chunk("after")]),
        ],
        vec![ToolReply { content: String::from("ok"), is_error: false }],
        vec!["sys", "user"],
        vec![tool_def("clock.now")],
    );
    let mut store = ConversationStore::new();
    let mut orch = orchestrator(svc, &mut store, wf, "go");
    orch.execute(&mut store).expect("the turn completes");
    let ms = messages_of(&store, 0);
    match &ms[2] {
        ContextMessage::Content { role: ChatRole::Assistant, content, tool_calls } => {
            assert!(content.is_empty());
            assert_eq!(tool_calls.len(), 1);
        }
        other => panic!("unexpected message {:?}", other),
    }
}

#[test]
fn ephemeral_agent_rebuilds_its_context() {
    let mut wf = Workflow::new();
    let mut a = agent("A", &["user_task_init", "user_task_update"]);
    a.ephemeral = true;
    assert!(wf.add_agent(a));
    let svc = services(
        vec![
            ProviderReply::Stream(vec![text_chunk("first")]),
            ProviderReply::Stream(vec![text_chunk("second")]),
        ],
        Vec::new(),
        vec!["sys one", "hello", "sys two", "again"],
        Vec::new(),
    );
    let mut store = ConversationStore::new();
    let mut orch = orchestrator(svc, &mut store, wf, "hello");
    orch.execute(&mut store).expect("first invocation");
    let first_len = messages_of(&store, 0).len();
    assert_eq!(first_len, 3);
    match &messages_of(&store, 0)[0] {
        ContextMessage::Content { role: ChatRole::System, content, .. } => {
            assert_eq!(content, "sys one")
        }
        other => panic!("unexpected message {:?}", other),
    }
    orch.execute(&mut store).expect("second invocation");
    // the second context is independent: rebuilt from the fresh system
    // prompt, not grown on top of the first
    let ms = messages_of(&store, 0);
    assert_eq!(ms.len(), 3);
    match &ms[0] {
        ContextMessage::Content { role: ChatRole::System, content, .. } => {
            assert_eq!(content, "sys two")
        }
        other => panic!("unexpected message {:?}", other),
    }
    // the log grew by appending only: the first event is still first
    let events = &store.conversations[0].events;
    assert_eq!(events.len(), 2);
    assert_eq!(events[0].name, "user_task_init");
    assert_eq!(events[1].name, "user_task_update");
    assert_eq!(store.conversations[0].turns[0], 2);
}

#[test]
fn unknown_conversation_is_refused() {
    let svc = services(Vec::new(), Vec::new(), Vec::new(), Vec::new());
    let mut store = ConversationStore::new();
    let mut orch = Orchestrator::new(
        svc,
        ChatRequest::new(
            String::from("hi"),
            forge_domain::conversation::ConversationId { id: 99 },
        ),
        SystemContext::new(),
        None,
    );
    match orch.execute(&mut store) {
        Err(Error::ConversationNotFound(id)) => assert_eq!(id.id, 99),
        other => panic!("expected a missing conversation, got {:?}", other),
    }
}

#[test]
fn failing_tool_is_surfaced_not_fatal() {
    let mut wf = Workflow::new();
    let mut a = agent("A", &["user_task_init"]);
    a.tools.push(ToolName::new("clock.now"));
    assert!(wf.add_agent(a));
    let call = ToolCallFull {
        call_id: None,
        name: ToolName::new("clock.now"),
        arguments: Vec::new(),
    };
    let first = ChatCompletionMessage {
        content: None,
        tool_call: vec![ToolCallPart::Full(call)],
        usage: None,
    };
    let svc = services(
        vec![
            ProviderReply::Stream(vec![first]),
            ProviderReply::Stream(vec![text_chunk("sorry")]),
        ],
        vec![ToolReply { content: String::from("boom"), is_error: true }],
        vec!["sys", "user"],
        vec![tool_def("clock.now")],
    );
    let mut store = ConversationStore::new();
    let mut orch = orchestrator(svc, &mut store, wf, "go");
    orch.execute(&mut store).expect("the turn completes despite the failing tool");
    let ms = messages_of(&store, 0);
    assert!(matches!(&ms[3], ContextMessage::Tool { result } if result.is_error && result.content == "boom"));
}

#[test]
fn exhausted_provider_is_an_upstream_failure() {
    let mut wf = Workflow::new();
    assert!(wf.add_agent(agent("A", &["user_task_init"])));
    let svc = services(Vec::new(), Vec::new(), vec!["sys", "user"], Vec::new());
    let mut store = ConversationStore::new();
    let mut orch = orchestrator(svc, &mut store, wf, "hello");
    match orch.execute(&mut store) {
        Err(Error::ProviderError(_)) => {}
        other => panic!("expected a provider error, got {:?}", other),
    }
    assert_eq!(store.conversations[0].turns[0], 0);
}

#[test]
fn transform_to_unknown_agent_fails_the_turn() {
    let mut wf = Workflow::new();
    let mut a = agent("A", &["user_task_init"]);
    a.transforms.push(Transform::PassThrough {
        agent_id: AgentId::new("missing"),
        input: String::from("tap"),
    });
    assert!(wf.add_agent(a));
    let svc = services(
        vec![ProviderReply::Stream(vec![text_chunk("unreached")])],
        Vec::new(),
        vec!["sys", "user"],
        Vec::new(),
    );
    let mut store = ConversationStore::new();
    let mut orch = orchestrator(svc, &mut store, wf, "hello");
    match orch.execute(&mut store) {
        Err(Error::AgentNotFound(id)) => assert_eq!(id.text, "missing"),
        other => panic!("expected a missing agent, got {:?}", other),
    }
    assert_eq!(store.conversations[0].turns[0], 0);
}

#[test]
fn self_dispatch_cycle_hits_the_recursion_limit() {
    // the agent answers every invocation by dispatching the event it is
    // itself subscribed to
    let mut wf = Workflow::new();
    assert!(wf.add_agent(agent("A", &["user_task_init", "loop_on"])));
    let mut provider = Vec::new();
    let mut renders: Vec<&str> = Vec::new();
    for _ in 0..40 {
        let emit = ToolCallFull {
            call_id: None,
            name: ToolName::new("dispatch"),
            arguments: vec![
                (String::from("name"), String::from("loop_on")),
                (String::from("value"), String::from("null")),
            ],
        };
        provider.push(ProviderReply::Stream(vec![ChatCompletionMessage {
            content: None,
            tool_call: vec![ToolCallPart::Full(emit)],
            usage: None,
        }]));
        renders.push("sys");
        renders.push("user");
    }
    let svc = services(provider, Vec::new(), renders, Vec::new());
    let mut store = ConversationStore::new();
    let mut orch = orchestrator(svc, &mut store, wf, "go");
    match orch.execute(&mut store) {
        Err(Error::RecursionLimit) => {}
        other => panic!("expected the recursion limit, got {:?}", other),
    }
}

#[test]
fn user_transform_appends_the_awaited_output() {
    let mut wf = Workflow::new();
    let mut a = agent("A", &["user_task_init"]);
    a.transforms.push(Transform::User {
        agent_id: AgentId::new("S"),
        output: String::from("ctx_out"),
    });
    assert!(wf.add_agent(a));
    assert!(wf.add_agent(agent("S", &[])));
    let emit = ToolCallFull {
        call_id: None,
        name: ToolName::new("dispatch"),
        arguments: vec![
            (String::from("name"), String::from("ctx_out")),
            (String::from("value"), String::from("extra")),
        ],
    };
    let s_reply = ChatCompletionMessage {
        content: None,
        tool_call: vec![ToolCallPart::Full(emit)],
        usage: None,
    };
    let svc = services(
        vec![
            ProviderReply::Stream(vec![s_reply]),
            ProviderReply::Stream(vec![text_chunk("done")]),
        ],
        Vec::new(),
        vec!["a sys", "hello", "s sys", "s user"],
        Vec::new(),
    );
    let mut store = ConversationStore::new();
    let mut orch = orchestrator(svc, &mut store, wf, "hello");
    orch.execute(&mut store).expect("the turn completes");
    let ms = messages_of(&store, 0);
    match &ms[1] {
        ContextMessage::Content { role: ChatRole::User, content, .. } => {
            assert_eq!(content, "hello\n<ctx_out>\nextra\n</ctx_out>")
        }
        other => panic!("unexpected message {:?}", other),
    }
    assert_eq!(store.conversations[0].turns[1], 1);
}

#[test]
fn pass_through_transform_observes_without_mutation() {
    let mut wf = Workflow::new();
    let mut a = agent("A", &["user_task_init"]);
    a.transforms.push(Transform::PassThrough {
        agent_id: AgentId::new("S"),
        input: String::from("tap"),
    });
    assert!(wf.add_agent(a));
    assert!(wf.add_agent(agent("S", &[])));
    let svc = services(
        vec![
            ProviderReply::Stream(vec![text_chunk("observed")]),
            ProviderReply::Stream(vec![text_chunk("answer")]),
        ],
        Vec::new(),
        vec!["a sys", "hello", "s sys", "s user"],
        Vec::new(),
    );
    let mut store = ConversationStore::new();
    let mut orch = orchestrator(svc, &mut store, wf, "hello");
    orch.execute(&mut store).expect("the turn completes");
    // the tap agent ran a turn; the caller's transcript holds exactly
    // system, untouched user, assistant
    assert_eq!(store.conversations[0].turns[1], 1);
    let ms = messages_of(&store, 0);
    assert_eq!(ms.len(), 3);
    assert!(matches!(&ms[1], ContextMessage::Content { role: ChatRole::User, content, .. } if content == "hello"));
    assert!(matches!(&ms[2], ContextMessage::Content { role: ChatRole::Assistant, content, .. } if content == "answer"));
}
