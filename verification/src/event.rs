//! Events: named, value-bearing records dispatched between agents, and
//! their reinterpretation of the reserved dispatch tool call.
use vstd::prelude::*;

use crate::tool::{args_view, spec_argument, ToolCallFull, ToolCallV, ToolDefinition, ToolName};

verus! {

/// Name of the event that carries the user's first request.
pub open spec fn task_init_name() -> Seq<char> {
    "user_task_init"@
}

/// Name of the event that carries any later user request.
pub open spec fn task_update_name() -> Seq<char> {
    "user_task_update"@
}

/// Name of the reserved tool whose invocation is read as an event.
pub open spec fn dispatch_tool_name() -> Seq<char> {
    "dispatch"@
}

/// Classification of an event by its name.
#[derive(Clone, Copy, Debug, PartialEq, Eq, Structural)]
pub enum EventType {
    UserTaskInit,
    UserTaskUpdate,
    Custom,
}

/// The classification that a given event name falls under.
pub open spec fn spec_event_type(name: Seq<char>) -> EventType {
    if name == task_init_name() {
        EventType::UserTaskInit
    } else if name == task_update_name() {
        EventType::UserTaskUpdate
    } else {
        EventType::Custom
    }
}

/// A named, value-bearing record: the unit of inter-agent dispatch.
/// The value carries its JSON text and is opaque to the orchestrator.
#[derive(Debug, Clone, PartialEq, Eq)]
pub struct Event {
    pub id: u64,
    pub name: String,
    pub value: String,
    pub timestamp: u64,
}

impl Event {
    /// An event with the given name and value.
    pub fn new_name_value(name: String, value: String, id: u64, timestamp: u64) -> (r: Event)
        ensures
            r.name@ == name@,
            r.value@ == value@,
            r.id == id,
            r.timestamp == timestamp,
    {
        Event { id, name, value, timestamp }
    }

    /// The event that opens a task with the user's first request.
    pub fn task_init(content: &str, id: u64, timestamp: u64) -> (r: Event)
        ensures
            r.name@ == task_init_name(),
            r.value@ == content@,
            r.id == id,
            r.timestamp == timestamp,
    {
        Event { id, name: String::from_str("user_task_init"), value: content.to_owned(), timestamp }
    }

    /// The event that carries a later user request.
    pub fn task_update(content: &str, id: u64, timestamp: u64) -> (r: Event)
        ensures
            r.name@ == task_update_name(),
            r.value@ == content@,
            r.id == id,
            r.timestamp == timestamp,
    {
        Event {
            id,
            name: String::from_str("user_task_update"),
            value: content.to_owned(),
            timestamp,
        }
    }

    /// The event's name.
    pub fn name(&self) -> (r: &String)
        ensures
            r@ == self.name@,
    {
        &self.name
    }

    /// The event's value: the JSON text it carries.
    pub fn value(&self) -> (r: &String)
        ensures
            r@ == self.value@,
    {
        &self.value
    }

    /// The classification this event falls under.
    pub fn event_type(&self) -> (r: EventType)
        ensures
            r == spec_event_type(self.name@),
    {
        if self.name == String::from_str("user_task_init") {
            EventType::UserTaskInit
        } else if self.name == String::from_str("user_task_update") {
            EventType::UserTaskUpdate
        } else {
            EventType::Custom
        }
    }

    /// A copy of this event with the same content.
    pub fn duplicate(&self) -> (r: Event)
        ensures
            r == *self,
    {
        Event {
            id: self.id,
            name: self.name.clone(),
            value: self.value.clone(),
            timestamp: self.timestamp,
        }
    }

    /// The descriptor under which the dispatch tool is offered to agents.
    pub fn tool_definition() -> (r: ToolDefinition)
        ensures
            r@ == dispatch_def(),
            r.name@ == dispatch_tool_name(),
    {
        let mut arg_names: Vec<String> = Vec::new();
        arg_names.push(String::from_str("name"));
        arg_names.push(String::from_str("value"));
        let r = ToolDefinition {
            name: ToolName::new("dispatch"),
            description: String::from_str("Dispatches an event to every subscribed agent"),
            usage_prompt: String::from_str(
                "Use the dispatch tool with a name and a value to emit an event",
            ),
            arg_names,
        };
        proof {
            assert(r@.arg_names =~= seq!["name"@, "value"@]);
        }
        r
    }

    /// The dispatch tool call that carries this event's name and value.
    pub fn to_tool_call(&self) -> (r: ToolCallFull)
        ensures
            r@ == spec_dispatch_call(self.name@, self.value@),
    {
        let mut arguments: Vec<(String, String)> = Vec::new();
        arguments.push((String::from_str("name"), self.name.clone()));
        arguments.push((String::from_str("value"), self.value.clone()));
        let r = ToolCallFull { call_id: None, name: ToolName::new("dispatch"), arguments };
        proof {
            assert(r@.arguments =~= spec_dispatch_call(self.name@, self.value@).arguments);
        }
        r
    }

    /// Reads a dispatch tool call back as an event; any other call is
    /// left to the tool registry.
    pub fn parse(tool_call: &ToolCallFull, id: u64, timestamp: u64) -> (r: Option<Event>)
        ensures
            match r {
                Some(e) => spec_event_parse(tool_call@) == Some((e.name@, e.value@)) && e.id == id
                    && e.timestamp == timestamp,
                None => spec_event_parse(tool_call@) is None,
            },
    {
        if !crate::tool::str_equal(tool_call.name.as_str(), "dispatch") {
            return None;
        }
        let name = match tool_call.argument("name") {
            Some(n) => n,
            None => {
                return None;
            },
        };
        let value = match tool_call.argument("value") {
            Some(v) => v,
            None => {
                return None;
            },
        };
        Some(Event { id, name, value, timestamp })
    }
}

/// The descriptor of the dispatch tool.
pub open spec fn dispatch_def() -> crate::tool::ToolDefV {
    crate::tool::ToolDefV {
        name: dispatch_tool_name(),
        description: "Dispatches an event to every subscribed agent"@,
        usage_prompt: "Use the dispatch tool with a name and a value to emit an event"@,
        arg_names: seq!["name"@, "value"@],
    }
}

/// The content of the dispatch tool call for a given name and value.
pub open spec fn spec_dispatch_call(name: Seq<char>, value: Seq<char>) -> ToolCallV {
    ToolCallV {
        call_id: None,
        name: dispatch_tool_name(),
        arguments: seq![("name"@, name), ("value"@, value)],
    }
}

/// The name and value that a dispatch tool call carries, if it is one.
pub open spec fn spec_event_parse(tc: ToolCallV) -> Option<(Seq<char>, Seq<char>)> {
    if tc.name != dispatch_tool_name() {
        None
    } else {
        match (spec_argument(tc.arguments, "name"@), spec_argument(tc.arguments, "value"@)) {
            (Some(n), Some(v)) => Some((n, v)),
            _ => None,
        }
    }
}

/// An event written into the reserved dispatch tool call and read back
/// recovers the same name and value.
pub proof fn lemma_event_dispatch_round_trip(name: Seq<char>, value: Seq<char>)
    ensures
        spec_event_parse(spec_dispatch_call(name, value)) == Some((name, value)),
{
    reveal_strlit("name");
    reveal_strlit("value");
    reveal_with_fuel(crate::tool::spec_argument_at, 3);
    let args = spec_dispatch_call(name, value).arguments;
    assert(args[0].0 == "name"@);
    assert("name"@.len() == 4);
    assert("value"@.len() == 5);
    assert(args[0].0 != "value"@);
    assert(spec_argument(args, "name"@) == Some(name));
    assert(spec_argument(args, "value"@) == Some(value));
}

} // verus!
