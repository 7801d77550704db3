//! Workflow definitions.

use vstd::prelude::*;

use crate::json::{JsonNumber, NumberView};
use crate::table::Table;
use crate::text;

verus! {

/// The type of a parameter.
#[derive(Debug, Clone, Copy, PartialEq, Eq, Structural)]
pub enum ParameterType {
    String,
    Int,
    Bool,
}

/// What a parameter has to be: its name is the key it is kept under.
#[derive(Debug, PartialEq)]
pub struct ParameterSpec {
    pub type_: ParameterType,
    pub description: Option<String>,
    pub required: bool,
}

pub struct ParameterSpecView {
    pub type_: ParameterType,
    pub description: Option<Seq<char>>,
    pub required: bool,
}

/// What an optional text says.
pub open spec fn optional_text(t: Option<String>) -> Option<Seq<char>> {
    match t {
        Some(s) => Some(s@),
        None => None,
    }
}

/// A copy of an optional text.
pub fn copy_optional(t: &Option<String>) -> (r: Option<String>)
    ensures
        optional_text(r) == optional_text(*t),
{
    match t {
        Some(s) => Some(s.clone()),
        None => None,
    }
}

impl View for ParameterSpec {
    type V = ParameterSpecView;

    open spec fn view(&self) -> ParameterSpecView {
        ParameterSpecView {
            type_: self.type_,
            description: optional_text(self.description),
            required: self.required,
        }
    }
}

/// What the specifications of the parameters say.
pub open spec fn parameters_view(m: Map<Seq<char>, ParameterSpec>) -> Map<Seq<char>, ParameterSpecView> {
    m.map_values(|p: ParameterSpec| p@)
}

/// Whether a request waits for its run, or is answered at once and told of the result later.
#[derive(Debug, Clone, Copy, PartialEq, Eq, Structural)]
pub enum ServiceMode {
    Sync,
    Async,
}

impl Default for ServiceMode {
    fn default() -> (r: Self)
        ensures
            r == ServiceMode::Sync,
    {
        ServiceMode::Sync
    }
}

/// The handler of a workflow that names none.
pub const DEFAULT_HANDLER: &'static str = "action.immediate";

/// The seconds that an agent run may take where the workflow sets no limit.
pub const DEFAULT_AGENT_TIMEOUT_SECS: u64 = 600;

/// The dollars that an agent run may cost where the workflow sets no limit: the text of a double.
pub const DEFAULT_AGENT_MAX_BUDGET_USD: &'static str = "1.0";

/// The agent that a workflow is bound to. All of it comes from the workflow's own file.
#[derive(Debug, PartialEq)]
pub struct AgentSpec {
    /// The files that a run needs.
    pub files: Vec<String>,
    pub model: Option<String>,
    pub max_budget_usd: Option<JsonNumber>,
    pub timeout_secs: Option<u64>,
}

pub struct AgentSpecView {
    pub files: Seq<Seq<char>>,
    pub model: Option<Seq<char>>,
    pub max_budget_usd: Option<NumberView>,
    pub timeout_secs: Option<u64>,
}

impl View for AgentSpec {
    type V = AgentSpecView;

    open spec fn view(&self) -> AgentSpecView {
        AgentSpecView {
            files: text::texts(self.files@),
            model: optional_text(self.model),
            max_budget_usd: match self.max_budget_usd {
                Some(n) => Some(n@),
                None => None,
            },
            timeout_secs: self.timeout_secs,
        }
    }
}

impl Default for AgentSpec {
    fn default() -> (r: Self)
        ensures
            r@ == (AgentSpecView {
                files: Seq::empty(),
                model: None,
                max_budget_usd: None,
                timeout_secs: None,
            }),
    {
        let r = AgentSpec { files: Vec::new(), model: None, max_budget_usd: None, timeout_secs: None };
        assert(r@.files =~= Seq::<Seq<char>>::empty());
        r
    }
}

/// What a workflow is bound to. `command`, `args` and `agent` come from the workflow's own file
/// and never from a caller.
#[derive(Debug, PartialEq)]
pub struct ServiceSpec {
    pub type_: Option<String>,
    pub handler: String,
    pub mode: ServiceMode,
    pub command: Option<String>,
    pub args: Vec<String>,
    pub agent: Option<AgentSpec>,
}

pub struct ServiceSpecView {
    pub type_: Option<Seq<char>>,
    pub handler: Seq<char>,
    pub mode: ServiceMode,
    pub command: Option<Seq<char>>,
    pub args: Seq<Seq<char>>,
    pub agent: Option<AgentSpecView>,
}

impl View for ServiceSpec {
    type V = ServiceSpecView;

    open spec fn view(&self) -> ServiceSpecView {
        ServiceSpecView {
            type_: optional_text(self.type_),
            handler: self.handler@,
            mode: self.mode,
            command: optional_text(self.command),
            args: text::texts(self.args@),
            agent: match self.agent {
                Some(a) => Some(a@),
                None => None,
            },
        }
    }
}

/// A workflow.
pub struct WorkflowDefinition {
    pub id: String,
    pub name: String,
    /// The prose below the front matter.
    pub description: String,
    /// The sentence by which a spoken request is matched to the workflow; empty where there is none.
    pub intent: String,
    pub triggers: Vec<String>,
    pub parameters: Table<ParameterSpec>,
    pub service: ServiceSpec,
    /// The file that the workflow was loaded from.
    pub source_path: String,
}

pub struct WorkflowDefinitionView {
    pub id: Seq<char>,
    pub name: Seq<char>,
    pub description: Seq<char>,
    pub intent: Seq<char>,
    pub triggers: Seq<Seq<char>>,
    pub parameters: Map<Seq<char>, ParameterSpecView>,
    pub service: ServiceSpecView,
    pub source_path: Seq<char>,
}

impl View for WorkflowDefinition {
    type V = WorkflowDefinitionView;

    open spec fn view(&self) -> WorkflowDefinitionView {
        WorkflowDefinitionView {
            id: self.id@,
            name: self.name@,
            description: self.description@,
            intent: self.intent@,
            triggers: text::texts(self.triggers@),
            parameters: parameters_view(self.parameters@),
            service: self.service@,
            source_path: self.source_path@,
        }
    }
}

/// What a list of workflows says of one.
#[derive(Debug, PartialEq)]
pub struct WorkflowSummary {
    pub id: String,
    pub name: String,
    pub description: String,
}

pub struct WorkflowSummaryView {
    pub id: Seq<char>,
    pub name: Seq<char>,
    pub description: Seq<char>,
}

impl View for WorkflowSummary {
    type V = WorkflowSummaryView;

    open spec fn view(&self) -> WorkflowSummaryView {
        WorkflowSummaryView { id: self.id@, name: self.name@, description: self.description@ }
    }
}

// ---------------------------------------------------------------------------
// What holds of it all

/// Two workflows that look the same are the same in every field: whatever is said of how a workflow
/// looks is said of all of it.
pub proof fn definitions_are_seen_whole(a: WorkflowDefinition, b: WorkflowDefinition)
    requires
        a@ == b@,
    ensures
        a.id@ == b.id@,
        a.name@ == b.name@,
        a.description@ == b.description@,
        a.intent@ == b.intent@,
        a.source_path@ == b.source_path@,
        a.triggers@.len() == b.triggers@.len(),
        forall|i: int| 0 <= i < a.triggers@.len() ==> (#[trigger] a.triggers@[i])@ == b.triggers@[i]@,
        a.parameters@.dom() == b.parameters@.dom(),
        forall|k: Seq<char>| #[trigger]
            a.parameters@.dom().contains(k) ==> a.parameters@[k].type_ == b.parameters@[k].type_
                && a.parameters@[k].required == b.parameters@[k].required && same_optional(
                a.parameters@[k].description,
                b.parameters@[k].description,
            ),
        same_optional(a.service.type_, b.service.type_),
        a.service.handler@ == b.service.handler@,
        a.service.mode == b.service.mode,
        same_optional(a.service.command, b.service.command),
        a.service.args@.len() == b.service.args@.len(),
        forall|i: int| 0 <= i < a.service.args@.len() ==> (#[trigger] a.service.args@[i])@ == b.service.args@[i]@,
        a.service.agent is Some <==> b.service.agent is Some,
        a.service.agent matches Some(x) ==> (b.service.agent matches Some(y) && same_agent(x, y)),
{
    text::texts_are_seen_whole(a.triggers@, b.triggers@);
    text::texts_are_seen_whole(a.service.args@, b.service.args@);
    assert(a.parameters@.dom() =~= b.parameters@.dom()) by {
        assert(a@.parameters.dom() =~= a.parameters@.dom());
        assert(b@.parameters.dom() =~= b.parameters@.dom());
    }
    assert forall|k: Seq<char>| #[trigger] a.parameters@.dom().contains(k) implies a.parameters@[k].type_
        == b.parameters@[k].type_ && a.parameters@[k].required == b.parameters@[k].required && same_optional(
        a.parameters@[k].description,
        b.parameters@[k].description,
    ) by {
        assert(a@.parameters[k] == a.parameters@[k]@);
        assert(b@.parameters[k] == b.parameters@[k]@);
    }
    if let Some(x) = a.service.agent {
        let y = b.service.agent->0;
        assert(a@.service.agent == Some(x@) && b@.service.agent == Some(y@));
        text::texts_are_seen_whole(x.files@, y.files@);
    }
}

/// Both are there and hold the same text, or neither is.
pub open spec fn same_optional(a: Option<String>, b: Option<String>) -> bool {
    (a is Some <==> b is Some) && (a is Some ==> a->0@ == b->0@)
}

/// The two agents are alike in every field.
pub open spec fn same_agent(x: AgentSpec, y: AgentSpec) -> bool {
    &&& x.files@.len() == y.files@.len()
    &&& forall|i: int| 0 <= i < x.files@.len() ==> (#[trigger] x.files@[i])@ == y.files@[i]@
    &&& same_optional(x.model, y.model)
    &&& x.timeout_secs == y.timeout_secs
    &&& x.max_budget_usd is Some <==> y.max_budget_usd is Some
    &&& x.max_budget_usd is Some ==> x.max_budget_usd->0@ == y.max_budget_usd->0@
}

/// Two summaries that look the same are the same in every field.
pub proof fn summaries_are_seen_whole(a: WorkflowSummary, b: WorkflowSummary)
    requires
        a@ == b@,
    ensures
        a.id@ == b.id@,
        a.name@ == b.name@,
        a.description@ == b.description@,
{
}

/// A workflow that says nothing of it is waited for, and an agent of which nothing is said has no files,
/// no model and no limits.
pub proof fn silence_stands_for_the_least(m: ServiceMode, a: AgentSpec)
    requires
        call_ensures(ServiceMode::default, (), m),
        call_ensures(AgentSpec::default, (), a),
    ensures
        m == ServiceMode::Sync,
        a.files@.len() == 0,
        a.model is None,
        a.max_budget_usd is None,
        a.timeout_secs is None,
{
    assert(text::texts(a.files@).len() == a.files@.len());
    assert(a@.files.len() == 0 && a@.model is None && a@.max_budget_usd is None);
}

} // verus!
