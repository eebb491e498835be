//! Tool identities, fully assembled and partial tool calls, and tool
//! descriptors as the registry publishes them.
use vstd::prelude::*;

verus! {

/// A character allowed in a tool or argument identifier.
pub open spec fn is_ident_char(c: char) -> bool {
    ('a' <= c && c <= 'z') || ('A' <= c && c <= 'Z') || ('0' <= c && c <= '9') || c == '_' || c
        == '.' || c == '-'
}

/// A well-formed tool identifier: nonempty, identifier characters only.
pub open spec fn ident_wf(s: Seq<char>) -> bool {
    s.len() > 0 && forall|i: int| 0 <= i < s.len() ==> is_ident_char(#[trigger] s[i])
}

/// The name of a tool.
#[derive(Debug, Clone, PartialEq, Eq)]
pub struct ToolName {
    pub text: String,
}

impl View for ToolName {
    type V = Seq<char>;

    open spec fn view(&self) -> Seq<char> {
        self.text@
    }
}

impl DeepView for ToolName {
    type V = Seq<char>;

    open spec fn deep_view(&self) -> Seq<char> {
        self.text@
    }
}

impl ToolName {
    /// Wraps the given name.
    pub fn new(s: &str) -> (r: ToolName)
        ensures
            r@ == s@,
    {
        ToolName { text: s.to_owned() }
    }

    /// The name as a string slice.
    pub fn as_str(&self) -> (r: &str)
        ensures
            r@ == self@,
    {
        self.text.as_str()
    }

    /// Whether two names are the same.
    pub fn matches(&self, other: &ToolName) -> (r: bool)
        ensures
            r == (self@ == other@),
    {
        self.text == other.text
    }

    /// A copy of this name whose view is equal to the original's.
    pub fn duplicate(&self) -> (r: ToolName)
        ensures
            r == *self,
    {
        ToolName { text: self.text.clone() }
    }
}

/// The identifier a provider attaches to one tool call.
#[derive(Debug, Clone, PartialEq, Eq)]
pub struct ToolCallId {
    pub text: String,
}

impl View for ToolCallId {
    type V = Seq<char>;

    open spec fn view(&self) -> Seq<char> {
        self.text@
    }
}

impl ToolCallId {
    /// Wraps the given identifier.
    pub fn new(s: &str) -> (r: ToolCallId)
        ensures
            r@ == s@,
    {
        ToolCallId { text: s.to_owned() }
    }

    /// A copy of this identifier whose view is equal to the original's.
    pub fn duplicate(&self) -> (r: ToolCallId)
        ensures
            r == *self,
    {
        ToolCallId { text: self.text.clone() }
    }
}

/// Copies an optional call identifier.
pub fn duplicate_call_id(id: &Option<ToolCallId>) -> (r: Option<ToolCallId>)
    ensures
        r == *id,
{
    match id {
        Some(i) => Some(i.duplicate()),
        None => None,
    }
}

/// The call identifier as an optional character sequence.
pub open spec fn call_id_view(id: Option<ToolCallId>) -> Option<Seq<char>> {
    match id {
        Some(i) => Some(i@),
        None => None,
    }
}

/// A fully assembled tool call: who to call, with which arguments.
/// Arguments are named values; each value carries its JSON text.
#[derive(Debug, Clone, PartialEq, Eq)]
pub struct ToolCallFull {
    pub call_id: Option<ToolCallId>,
    pub name: ToolName,
    pub arguments: Vec<(String, String)>,
}

/// Mathematical content of a tool call.
pub ghost struct ToolCallV {
    pub call_id: Option<Seq<char>>,
    pub name: Seq<char>,
    pub arguments: Seq<(Seq<char>, Seq<char>)>,
}

/// Mathematical content of a list of named argument values.
pub open spec fn args_view(args: Seq<(String, String)>) -> Seq<(Seq<char>, Seq<char>)> {
    args.map_values(|p: (String, String)| (p.0@, p.1@))
}

impl View for ToolCallFull {
    type V = ToolCallV;

    open spec fn view(&self) -> ToolCallV {
        ToolCallV {
            call_id: call_id_view(self.call_id),
            name: self.name@,
            arguments: args_view(self.arguments@),
        }
    }
}

impl DeepView for ToolCallFull {
    type V = ToolCallV;

    open spec fn deep_view(&self) -> ToolCallV {
        self.view()
    }
}

impl ToolCallFull {
    /// A call of the named tool with no arguments and no identifier.
    pub fn new(name: ToolName) -> (r: ToolCallFull)
        ensures
            r.name == name,
            r.call_id is None,
            r.arguments@ =~= Seq::<(String, String)>::empty(),
    {
        ToolCallFull { call_id: None, name, arguments: Vec::new() }
    }

    /// The value of the first argument with the given name, if any.
    pub fn argument(&self, key: &str) -> (r: Option<String>)
        ensures
            match r {
                Some(v) => spec_argument(args_view(self.arguments@), key@) == Some(v@),
                None => spec_argument(args_view(self.arguments@), key@) is None,
            },
    {
        argument_at(&self.arguments, key, 0)
    }

    /// A copy of this call with the same content.
    pub fn duplicate(&self) -> (r: ToolCallFull)
        ensures
            r@ == self@,
            r.call_id == self.call_id,
            r.name == self.name,
    {
        let mut args: Vec<(String, String)> = Vec::new();
        let mut i: usize = 0;
        while i < self.arguments.len()
            invariant
                0 <= i <= self.arguments@.len(),
                args@ =~= self.arguments@.subrange(0, i as int),
            decreases self.arguments@.len() - i,
        {
            args.push((self.arguments[i].0.clone(), self.arguments[i].1.clone()));
            i += 1;
        }
        let r = ToolCallFull {
            call_id: duplicate_call_id(&self.call_id),
            name: self.name.duplicate(),
            arguments: args,
        };
        proof {
            assert(r.arguments@ =~= self.arguments@);
        }
        r
    }
}

/// The value of the first argument named `key` among the entries from `i` on.
pub open spec fn spec_argument_at(
    args: Seq<(Seq<char>, Seq<char>)>,
    key: Seq<char>,
    i: int,
) -> Option<Seq<char>>
    decreases args.len() - i,
{
    if i < 0 || i >= args.len() {
        None
    } else if args[i].0 == key {
        Some(args[i].1)
    } else {
        spec_argument_at(args, key, i + 1)
    }
}

/// The value of the first argument named `key`, if any.
pub open spec fn spec_argument(args: Seq<(Seq<char>, Seq<char>)>, key: Seq<char>) -> Option<
    Seq<char>,
> {
    spec_argument_at(args, key, 0)
}

/// The value of the first argument named `key` among the entries from `i` on.
fn argument_at(args: &Vec<(String, String)>, key: &str, i: usize) -> (r: Option<String>)
    ensures
        match r {
            Some(v) => spec_argument_at(args_view(args@), key@, i as int) == Some(v@),
            None => spec_argument_at(args_view(args@), key@, i as int) is None,
        },
    decreases args@.len() - i,
{
    if i >= args.len() {
        None
    } else if str_equal(args[i].0.as_str(), key) {
        Some(args[i].1.clone())
    } else {
        argument_at(args, key, i + 1)
    }
}

/// Whether two string slices hold the same characters.
pub fn str_equal(a: &str, b: &str) -> (r: bool)
    ensures
        r == (a@ == b@),
{
    a.to_owned() == b.to_owned()
}

/// A streamed fragment of a tool call, keyed by its stream index.
#[derive(Debug, Clone, PartialEq, Eq)]
pub struct ToolCallPartial {
    pub index: usize,
    pub name: Option<ToolName>,
    pub call_id: Option<ToolCallId>,
    pub arguments_fragment: String,
}

/// What the registry publishes about one tool: its name, a description,
/// a usage prompt, and the names of the arguments it accepts.
#[derive(Debug, Clone, PartialEq, Eq)]
pub struct ToolDefinition {
    pub name: ToolName,
    pub description: String,
    pub usage_prompt: String,
    pub arg_names: Vec<String>,
}

/// Mathematical content of a tool definition.
pub ghost struct ToolDefV {
    pub name: Seq<char>,
    pub description: Seq<char>,
    pub usage_prompt: Seq<char>,
    pub arg_names: Seq<Seq<char>>,
}

impl View for ToolDefinition {
    type V = ToolDefV;

    open spec fn view(&self) -> ToolDefV {
        ToolDefV {
            name: self.name@,
            description: self.description@,
            usage_prompt: self.usage_prompt@,
            arg_names: self.arg_names@.map_values(|s: String| s@),
        }
    }
}

impl DeepView for ToolDefinition {
    type V = ToolDefV;

    open spec fn deep_view(&self) -> ToolDefV {
        self.view()
    }
}

impl ToolDefinition {
    /// A copy of this definition with the same content.
    pub fn duplicate(&self) -> (r: ToolDefinition)
        ensures
            r@ == self@,
            r.name == self.name,
    {
        let mut ans: Vec<String> = Vec::new();
        let mut i: usize = 0;
        while i < self.arg_names.len()
            invariant
                0 <= i <= self.arg_names@.len(),
                ans@ =~= self.arg_names@.subrange(0, i as int),
            decreases self.arg_names@.len() - i,
        {
            ans.push(self.arg_names[i].clone());
            i += 1;
        }
        let r = ToolDefinition {
            name: self.name.duplicate(),
            description: self.description.clone(),
            usage_prompt: self.usage_prompt.clone(),
            arg_names: ans,
        };
        proof {
            assert(r.arg_names@ =~= self.arg_names@);
        }
        r
    }
}

} // verus!
