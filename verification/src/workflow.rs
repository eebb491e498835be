//! Workflows: the static declaration of agents, their subscriptions,
//! allowed tools, prompts, and context transforms.
use vstd::prelude::*;

use crate::tool::ToolName;

verus! {

broadcast use crate::views::lemma_vec_deep_view, crate::views::lemma_seq_deep_push, crate::views::lemma_seq_deep_subrange;

/// The identifier of an agent, unique within a workflow.
#[derive(Debug, Clone, PartialEq, Eq)]
pub struct AgentId {
    pub text: String,
}

impl View for AgentId {
    type V = Seq<char>;

    open spec fn view(&self) -> Seq<char> {
        self.text@
    }
}

impl DeepView for AgentId {
    type V = Seq<char>;

    open spec fn deep_view(&self) -> Seq<char> {
        self.text@
    }
}

impl AgentId {
    /// Wraps the given identifier.
    pub fn new(s: &str) -> (r: AgentId)
        ensures
            r@ == s@,
    {
        AgentId { text: s.to_owned() }
    }

    /// The identifier as a string slice.
    pub fn as_str(&self) -> (r: &str)
        ensures
            r@ == self@,
    {
        self.text.as_str()
    }

    /// Whether two identifiers are the same.
    pub fn matches(&self, other: &AgentId) -> (r: bool)
        ensures
            r == (self@ == other@),
    {
        self.text == other.text
    }

    /// A copy of this identifier with the same content.
    pub fn duplicate(&self) -> (r: AgentId)
        ensures
            r == *self,
    {
        AgentId { text: self.text.clone() }
    }
}

/// The identifier of a model offered by the provider.
#[derive(Debug, Clone, PartialEq, Eq)]
pub struct ModelId {
    pub text: String,
}

impl View for ModelId {
    type V = Seq<char>;

    open spec fn view(&self) -> Seq<char> {
        self.text@
    }
}

impl ModelId {
    /// Wraps the given identifier.
    pub fn new(s: &str) -> (r: ModelId)
        ensures
            r@ == s@,
    {
        ModelId { text: s.to_owned() }
    }

    /// A copy of this identifier with the same content.
    pub fn duplicate(&self) -> (r: ModelId)
        ensures
            r == *self,
    {
        ModelId { text: self.text.clone() }
    }
}

/// A prompt template. Its text is opaque to the orchestrator: rendering
/// is the template service's work.
#[derive(Debug, Clone, PartialEq, Eq)]
pub struct Template {
    pub text: String,
}

impl View for Template {
    type V = Seq<char>;

    open spec fn view(&self) -> Seq<char> {
        self.text@
    }
}

impl Template {
    /// Wraps the given template text.
    pub fn new(s: &str) -> (r: Template)
        ensures
            r@ == s@,
    {
        Template { text: s.to_owned() }
    }

    /// A copy of this template with the same content.
    pub fn duplicate(&self) -> (r: Template)
        ensures
            r == *self,
    {
        Template { text: self.text.clone() }
    }
}

/// A context rewrite applied before each provider call: summarize an
/// oversized transcript, enrich the latest user message, or hand a copy
/// of the transcript to another agent.
#[derive(Debug, Clone, PartialEq, Eq)]
pub enum Transform {
    Assistant { agent_id: AgentId, token_limit: u64, input: String, output: String },
    User { agent_id: AgentId, output: String },
    PassThrough { agent_id: AgentId, input: String },
}

impl Transform {
    /// A copy of this transform with the same content.
    pub fn duplicate(&self) -> (r: Transform)
        ensures
            r == *self,
    {
        match self {
            Transform::Assistant { agent_id, token_limit, input, output } => Transform::Assistant {
                agent_id: agent_id.duplicate(),
                token_limit: *token_limit,
                input: input.clone(),
                output: output.clone(),
            },
            Transform::User { agent_id, output } => Transform::User {
                agent_id: agent_id.duplicate(),
                output: output.clone(),
            },
            Transform::PassThrough { agent_id, input } => Transform::PassThrough {
                agent_id: agent_id.duplicate(),
                input: input.clone(),
            },
        }
    }
}

/// One configured agent: its model, prompts, tool allow-list, event
/// subscriptions, transforms, and whether its context is rebuilt on
/// every invocation.
#[derive(Debug, Clone, PartialEq, Eq)]
pub struct Agent {
    pub id: AgentId,
    pub model: ModelId,
    pub ephemeral: bool,
    pub suggestions: bool,
    pub tools: Vec<ToolName>,
    pub subscribe: Vec<String>,
    pub system_prompt: Template,
    pub user_prompt: Template,
    pub transforms: Vec<Transform>,
}

impl Agent {
    /// A fresh agent with the given identifier, subscribed to nothing.
    pub fn new(id: AgentId, model: ModelId) -> (r: Agent)
        ensures
            r.id == id,
            r.model == model,
            !r.ephemeral,
            !r.suggestions,
            r.tools@.len() == 0,
            r.subscribe@.len() == 0,
            r.transforms@.len() == 0,
    {
        Agent {
            id,
            model,
            ephemeral: false,
            suggestions: false,
            tools: Vec::new(),
            subscribe: Vec::new(),
            system_prompt: Template { text: String::new() },
            user_prompt: Template { text: String::new() },
            transforms: Vec::new(),
        }
    }

    /// Whether this agent subscribes to the given event name.
    pub fn subscribes(&self, name: &str) -> (r: bool)
        ensures
            r == spec_subscribes(*self, name@),
    {
        let mut i: usize = 0;
        while i < self.subscribe.len()
            invariant
                0 <= i <= self.subscribe@.len(),
                forall|j: int| 0 <= j < i ==> (#[trigger] self.subscribe@[j])@ != name@,
            decreases self.subscribe@.len() - i,
        {
            if crate::tool::str_equal(self.subscribe[i].as_str(), name) {
                return true;
            }
            i += 1;
        }
        false
    }

    /// Whether this agent is allowed to invoke the named tool.
    pub fn allows_tool(&self, name: &ToolName) -> (r: bool)
        ensures
            r == spec_allows_tool(*self, name@),
    {
        let mut i: usize = 0;
        while i < self.tools.len()
            invariant
                0 <= i <= self.tools@.len(),
                forall|j: int| 0 <= j < i ==> (#[trigger] self.tools@[j])@ != name@,
            decreases self.tools@.len() - i,
        {
            if self.tools[i].matches(name) {
                return true;
            }
            i += 1;
        }
        false
    }

    /// A copy of this agent with the same content.
    pub fn duplicate(&self) -> (r: Agent)
        ensures
            r.id == self.id,
            r.model == self.model,
            r.ephemeral == self.ephemeral,
            r.suggestions == self.suggestions,
            r.tools@ == self.tools@,
            r.subscribe@ == self.subscribe@,
            r.system_prompt == self.system_prompt,
            r.user_prompt == self.user_prompt,
            r.transforms@ == self.transforms@,
    {
        let mut tools: Vec<ToolName> = Vec::new();
        let mut i: usize = 0;
        while i < self.tools.len()
            invariant
                0 <= i <= self.tools@.len(),
                tools@ =~= self.tools@.subrange(0, i as int),
            decreases self.tools@.len() - i,
        {
            tools.push(self.tools[i].duplicate());
            i += 1;
        }
        let mut subscribe: Vec<String> = Vec::new();
        let mut j: usize = 0;
        while j < self.subscribe.len()
            invariant
                0 <= j <= self.subscribe@.len(),
                subscribe@ =~= self.subscribe@.subrange(0, j as int),
            decreases self.subscribe@.len() - j,
        {
            subscribe.push(self.subscribe[j].clone());
            j += 1;
        }
        let mut transforms: Vec<Transform> = Vec::new();
        let mut k: usize = 0;
        while k < self.transforms.len()
            invariant
                0 <= k <= self.transforms@.len(),
                transforms@ =~= self.transforms@.subrange(0, k as int),
            decreases self.transforms@.len() - k,
        {
            transforms.push(self.transforms[k].duplicate());
            k += 1;
        }
        let r = Agent {
            id: self.id.duplicate(),
            model: self.model.duplicate(),
            ephemeral: self.ephemeral,
            suggestions: self.suggestions,
            tools,
            subscribe,
            system_prompt: self.system_prompt.duplicate(),
            user_prompt: self.user_prompt.duplicate(),
            transforms,
        };
        proof {
            assert(r.tools@ =~= self.tools@);
            assert(r.subscribe@ =~= self.subscribe@);
            assert(r.transforms@ =~= self.transforms@);
        }
        r
    }
}

/// Whether an agent subscribes to the given event name.
pub open spec fn spec_subscribes(a: Agent, name: Seq<char>) -> bool {
    exists|k: int| 0 <= k < a.subscribe@.len() && (#[trigger] a.subscribe@[k])@ == name
}

/// Whether an agent's allow-list holds the given tool name.
pub open spec fn spec_allows_tool(a: Agent, name: Seq<char>) -> bool {
    exists|k: int| 0 <= k < a.tools@.len() && (#[trigger] a.tools@[k])@ == name
}

/// An ordered list of agents with unique identifiers; lookups are by
/// identifier, fan-out is by event subscription in declared order.
#[derive(Debug, Clone, PartialEq, Eq)]
pub struct Workflow {
    pub agents: Vec<Agent>,
}

impl Workflow {
    /// Agent identifiers are unique within a workflow.
    pub open spec fn wf(&self) -> bool {
        forall|i: int, j: int|
            0 <= i < j < self.agents@.len() ==> (#[trigger] self.agents@[i]).id@ != (
            #[trigger] self.agents@[j]).id@
    }

    /// An empty workflow.
    pub fn new() -> (r: Workflow)
        ensures
            r.agents@.len() == 0,
            r.wf(),
    {
        Workflow { agents: Vec::new() }
    }

    /// Appends an agent; refused if its identifier is already taken.
    pub fn add_agent(&mut self, agent: Agent) -> (r: bool)
        requires
            old(self).wf(),
        ensures
            final(self).wf(),
            r ==> final(self).agents@ == old(self).agents@.push(agent),
            !r ==> final(self).agents@ == old(self).agents@,
    {
        let mut i: usize = 0;
        while i < self.agents.len()
            invariant
                0 <= i <= self.agents@.len(),
                self.agents@ == old(self).agents@,
                old(self).wf(),
                forall|j: int| 0 <= j < i ==> (#[trigger] self.agents@[j]).id@ != agent.id@,
            decreases self.agents@.len() - i,
        {
            if self.agents[i].id.matches(&agent.id) {
                return false;
            }
            i += 1;
        }
        self.agents.push(agent);
        true
    }

    /// The position of the agent with the given identifier.
    pub fn agent_index(&self, id: &AgentId) -> (r: Option<usize>)
        ensures
            match r {
                Some(i) => i < self.agents@.len() && self.agents@[i as int].id@ == id@,
                None => forall|j: int|
                    0 <= j < self.agents@.len() ==> (#[trigger] self.agents@[j]).id@ != id@,
            },
    {
        let mut i: usize = 0;
        while i < self.agents.len()
            invariant
                0 <= i <= self.agents@.len(),
                forall|j: int| 0 <= j < i ==> (#[trigger] self.agents@[j]).id@ != id@,
            decreases self.agents@.len() - i,
        {
            if self.agents[i].id.matches(id) {
                return Some(i);
            }
            i += 1;
        }
        None
    }

    /// The positions of the agents subscribed to the given event name,
    /// in declared order: ascending, sound, and complete.
    pub fn entries(&self, name: &str) -> (r: Vec<usize>)
        ensures
            forall|k: int|
                0 <= k < r@.len() ==> #[trigger] r@[k] < self.agents@.len() && spec_subscribes(
                    self.agents@[r@[k] as int],
                    name@,
                ),
            forall|k1: int, k2: int| 0 <= k1 < k2 < r@.len() ==> r@[k1] < r@[k2],
            forall|i: int|
                0 <= i < self.agents@.len() && spec_subscribes(#[trigger] self.agents@[i], name@)
                    ==> exists|k: int| 0 <= k < r@.len() && r@[k] == i,
    {
        let mut r: Vec<usize> = Vec::new();
        let mut i: usize = 0;
        while i < self.agents.len()
            invariant
                0 <= i <= self.agents@.len(),
                forall|k: int|
                    0 <= k < r@.len() ==> #[trigger] r@[k] < i && spec_subscribes(
                        self.agents@[r@[k] as int],
                        name@,
                    ),
                forall|k1: int, k2: int| 0 <= k1 < k2 < r@.len() ==> r@[k1] < r@[k2],
                forall|j: int|
                    0 <= j < i && spec_subscribes(#[trigger] self.agents@[j], name@) ==> exists|
                        k: int,
                    | 0 <= k < r@.len() && r@[k] == j,
            decreases self.agents@.len() - i,
        {
            if self.agents[i].subscribes(name) {
                let ghost prev = r@;
                r.push(i);
                proof {
                    assert forall|j: int|
                        0 <= j <= i as int && spec_subscribes(
                            #[trigger] self.agents@[j],
                            name@,
                        ) implies exists|k: int| 0 <= k < r@.len() && r@[k] == j by {
                        if j == i as int {
                            assert(r@[prev.len() as int] == i);
                        } else {
                            let k = choose|k: int| 0 <= k < prev.len() && prev[k] == j;
                            assert(r@[k] == j);
                        }
                    }
                }
            }
            i += 1;
        }
        r
    }
}

} // verus!
