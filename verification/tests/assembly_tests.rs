use forge_domain::assembly::assemble;
use forge_domain::chat::{ChatCompletionMessage, ToolCallPart};
use forge_domain::error::Error;
use forge_domain::event::Event;
use forge_domain::tool::{ToolCallFull, ToolCallId, ToolCallPartial, ToolDefinition, ToolName};

fn def(name: &str, args: &[&str]) -> ToolDefinition {
    ToolDefinition {
        name: ToolName::new(name),
        description: String::new(),
        usage_prompt: String::new(),
        arg_names: args.iter().map(|a| String::from(*a)).collect(),
    }
}

fn full(name: &str, id: &str) -> ToolCallFull {
    ToolCallFull {
        call_id: Some(ToolCallId::new(id)),
        name: ToolName::new(name),
        arguments: Vec::new(),
    }
}

fn partial(index: usize, name: Option<&str>, frag: &str) -> ToolCallPartial {
    ToolCallPartial {
        index,
        name: name.map(ToolName::new),
        call_id: None,
        arguments_fragment: String::from(frag),
    }
}

#[test]
fn reassembly_preserves_order() {
    // full_A, partial_B[index=1, frags=[x, y]], partial_C[index=0,
    // frags=[z]], xml_D: the emitted order is A, C, B, D.
    let m1 = ChatCompletionMessage {
        content: Some(String::from("<d_tool></d_tool>")),
        tool_call: vec![
            ToolCallPart::Full(full("tool_a", "a1")),
            ToolCallPart::Partial(partial(1, Some("tool_b"), "{\"b\":")),
        ],
        usage: None,
    };
    let m2 = ChatCompletionMessage {
        content: None,
        tool_call: vec![
            ToolCallPart::Partial(partial(0, Some("tool_c"), "{\"c\":1}")),
            ToolCallPart::Partial(partial(1, None, "2}")),
        ],
        usage: None,
    };
    let registry = vec![def("d_tool", &[])];
    let out = assemble(&vec![m1, m2], &registry).expect("assembles");
    let names: Vec<&str> = out.tool_calls.iter().map(|c| c.name.text.as_str()).collect();
    assert_eq!(names, vec!["tool_a", "tool_c", "tool_b", "d_tool"]);
    // the fragments of B were joined in stream order
    let b = &out.tool_calls[2];
    assert_eq!(b.arguments.len(), 1);
    assert_eq!(b.arguments[0].0, "b");
    assert_eq!(b.arguments[0].1, "2");
    assert_eq!(out.content, "<d_tool></d_tool>");
}

#[test]
fn duplicate_call_id_is_rejected() {
    let m = ChatCompletionMessage {
        content: None,
        tool_call: vec![
            ToolCallPart::Full(full("tool_a", "same")),
            ToolCallPart::Full(full("tool_b", "same")),
        ],
        usage: None,
    };
    match assemble(&vec![m], &Vec::new()) {
        Err(Error::ToolCallParseError(_)) => {}
        other => panic!("expected a parse error, got {:?}", other),
    }
}

#[test]
fn bad_fragment_json_is_rejected() {
    let m = ChatCompletionMessage {
        content: None,
        tool_call: vec![ToolCallPart::Partial(partial(0, Some("tool_a"), "not json"))],
        usage: None,
    };
    match assemble(&vec![m], &Vec::new()) {
        Err(Error::ToolCallParseError(_)) => {}
        other => panic!("expected a parse error, got {:?}", other),
    }
}

#[test]
fn usage_only_stream_has_no_calls_and_empty_text() {
    let m = ChatCompletionMessage {
        content: None,
        tool_call: Vec::new(),
        usage: Some(forge_domain::chat::Usage { prompt_tokens: 3, completion_tokens: 4 }),
    };
    let out = assemble(&vec![m], &Vec::new()).expect("assembles");
    assert_eq!(out.content, "");
    assert!(out.tool_calls.is_empty());
}

#[test]
fn embedded_invocation_with_arguments() {
    let m = ChatCompletionMessage {
        content: Some(String::from("before <shell><cmd>ls</cmd></shell> after")),
        tool_call: Vec::new(),
        usage: None,
    };
    let registry = vec![def("shell", &["cmd"])];
    let out = assemble(&vec![m], &registry).expect("assembles");
    assert_eq!(out.tool_calls.len(), 1);
    assert_eq!(out.tool_calls[0].name.text, "shell");
    assert_eq!(out.tool_calls[0].arguments, vec![(String::from("cmd"), String::from("ls"))]);
}

#[test]
fn embedded_invocation_unknown_argument_is_rejected() {
    let m = ChatCompletionMessage {
        content: Some(String::from("<shell><bogus>1</bogus></shell>")),
        tool_call: Vec::new(),
        usage: None,
    };
    let registry = vec![def("shell", &["cmd"])];
    match assemble(&vec![m], &registry) {
        Err(Error::ToolCallParseError(_)) => {}
        other => panic!("expected a parse error, got {:?}", other),
    }
}

#[test]
fn event_dispatch_round_trip() {
    let event = Event::new_name_value(
        String::from("review"),
        String::from("\"see code\""),
        7,
        7,
    );
    let call = event.to_tool_call();
    let back = Event::parse(&call, 9, 9).expect("a dispatch call is an event");
    assert_eq!(back.name, "review");
    assert_eq!(back.value, "\"see code\"");
    assert_eq!(back.id, 9);
}

#[test]
fn non_dispatch_call_is_not_an_event() {
    let call = full("clock.now", "c1");
    assert!(Event::parse(&call, 1, 1).is_none());
}
