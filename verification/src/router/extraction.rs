//! The parameters that an utterance gives.

use vstd::prelude::*;

use crate::definition;
use crate::definition::{WorkflowDefinition, WorkflowDefinitionView};
use crate::dispatch;
use crate::error::{RouterError, RouterErrorView};
use crate::json;
use crate::json::serde_text;
use crate::json::{Json, JsonView};
use crate::router::schema;
use crate::table::Table;
use crate::text;
use crate::wire;

verus! {

broadcast use crate::json::group_json;

/// What the model is asked: the instructions and the utterance are kept apart.
#[derive(Debug)]
pub struct ExtractionRequest {
    pub system: String,
    pub prompt: String,
    pub schema: Json,
}

pub struct ExtractionRequestView {
    pub system: Seq<char>,
    pub prompt: Seq<char>,
    pub schema: JsonView,
}

impl View for ExtractionRequest {
    type V = ExtractionRequestView;

    open spec fn view(&self) -> ExtractionRequestView {
        ExtractionRequestView { system: self.system@, prompt: self.prompt@, schema: self.schema@ }
    }
}

/// What the model is asked for the parameters of the workflow.
pub open spec fn request_of(def: WorkflowDefinitionView, utterance: Seq<char>) -> ExtractionRequestView {
    ExtractionRequestView {
        system: "You extract structured parameters for the \""@ + def.id
            + "\" workflow from a user's utterance. Respond with ONLY a JSON object matching the given schema -- never invent a parameter the schema does not declare, and never respond on behalf of any other workflow."@,
        prompt: "Utterance: "@ + serde_text::json_text(JsonView::Str(utterance)),
        schema: schema::schema_of(def.parameters),
    }
}

/// What the model is asked for the parameters of the workflow, with the utterance as JSON on one
/// line. Nothing is asked for a workflow that has none.
pub fn extraction_request(def: &WorkflowDefinition, utterance: &str) -> (r: Option<ExtractionRequest>)
    ensures
        match r {
            Some(q) => q@ == request_of(def@, utterance@) && !serde_text::json_text(
                JsonView::Str(utterance@),
            ).contains('\n'),
            None => true,
        },
        r is None <==> def@.parameters == Map::<Seq<char>, definition::ParameterSpecView>::empty(),
{
    if def.parameters.len() == 0 {
        assert(def.parameters@ =~= Map::<Seq<char>, definition::ParameterSpec>::empty());
        assert(def@.parameters =~= Map::<Seq<char>, definition::ParameterSpecView>::empty());
        return None;
    }
    proof {
        let k = def.parameters.rows()[0].0;
        assert(crate::table::has_key(def.parameters.rows(), k));
        assert(def@.parameters.dom().contains(k));
    }
    let system = text::concat3(
        "You extract structured parameters for the \"",
        &def.id,
        "\" workflow from a user's utterance. Respond with ONLY a JSON object matching the given schema -- never invent a parameter the schema does not declare, and never respond on behalf of any other workflow.",
    );
    let prompt = text::concat2("Utterance: ", &serde_text::write_json(&Json::Str(utterance.to_owned())));
    Some(ExtractionRequest { system, prompt, schema: schema::build_param_schema(&def.parameters) })
}

/// That the parameters of the workflow were not found, in words.
pub open spec fn rejected(def: WorkflowDefinitionView, detail: Seq<char>) -> Seq<char> {
    RouterErrorView::ExtractionRejected { workflow_id: def.id, detail }.words()
}

/// What was found, or why nothing was: what came back has to be an object that fits the
/// parameters.
pub open spec fn extraction_of(def: WorkflowDefinitionView, raw: Result<JsonView, RouterErrorView>) -> (
    Option<JsonView>,
    Option<Seq<char>>,
) {
    match raw {
        Err(e) => (None, Some(rejected(def, e.words()))),
        Ok(JsonView::Object(m)) => match dispatch::payload_fault(m, def.parameters) {
            None => (Some(JsonView::Object(m)), None),
            Some(e) => (None, Some(rejected(def, "validation failed: "@ + e.words()))),
        },
        Ok(_) => (None, Some(rejected(def, "the model's response parsed to a non-object JSON value"@))),
    }
}

/// What the model answered.
pub open spec fn answer_view(raw: Result<Json, RouterError>) -> Result<JsonView, RouterErrorView> {
    match raw {
        Ok(j) => Ok(j@),
        Err(e) => Err(e@),
    }
}

fn rejection(def: &WorkflowDefinition, detail: String) -> (r: (Option<Json>, Option<String>))
    ensures
        wire::optional_json(r.0) == None::<JsonView>,
        definition::optional_text(r.1) == Some(rejected(def@, detail@)),
{
    let e = RouterError::ExtractionRejected { workflow_id: def.id.clone(), detail };
    (None, Some(e.message()))
}

/// What was found, or why nothing was.
pub fn check_extraction(def: &WorkflowDefinition, raw: Result<Json, RouterError>) -> (r: (
    Option<Json>,
    Option<String>,
))
    ensures
        (wire::optional_json(r.0), definition::optional_text(r.1)) == extraction_of(def@, answer_view(raw)),
{
    match raw {
        Err(e) => rejection(def, e.message()),
        Ok(Json::Object(m)) => match dispatch::validate_payload(&m, &def.parameters) {
            Ok(_) => (Some(Json::Object(m)), None),
            Err(e) => rejection(def, text::concat2("validation failed: ", &e.message())),
        },
        Ok(_) => rejection(def, "the model's response parsed to a non-object JSON value".to_owned()),
    }
}

/// The parameters of a workflow that has none.
pub fn no_parameters() -> (r: Json)
    ensures
        r@ == JsonView::Object(Map::<Seq<char>, JsonView>::empty()),
{
    Json::Object(Table::new())
}

/// Parameters that were found fit the workflow, and where none were found there are words for it.
pub proof fn found_parameters_fit(def: WorkflowDefinitionView, raw: Result<JsonView, RouterErrorView>)
    ensures
        extraction_of(def, raw).0 matches Some(v) ==> v matches JsonView::Object(m) && dispatch::payload_fault(
            m,
            def.parameters,
        ) is None,
        extraction_of(def, raw).0 is None <==> extraction_of(def, raw).1 is Some,
{
}

/// Parameters are found exactly where the model answered with an object that fits those of the
/// workflow, and what is found is that object as it came. Where nothing is found, the words name the
/// workflow.
pub proof fn what_fits_is_what_is_found(def: WorkflowDefinitionView, raw: Result<JsonView, RouterErrorView>, v: JsonView)
    ensures
        extraction_of(def, raw).0 == Some(v) <==> raw == Ok::<JsonView, RouterErrorView>(v) && (v matches JsonView::Object(m)
            && dispatch::payload_fault(m, def.parameters) is None),
        extraction_of(def, raw).0 is None <==> extraction_of(def, raw).1 is Some,
        raw matches Err(e) ==> extraction_of(def, raw).1 == Some(
            RouterErrorView::ExtractionRejected { workflow_id: def.id, detail: e.words() }.words(),
        ),
        raw matches Ok(JsonView::Object(m)) ==> (dispatch::payload_fault(m, def.parameters) matches Some(e)
            ==> extraction_of(def, raw).1 == Some(
            RouterErrorView::ExtractionRejected {
                workflow_id: def.id,
                detail: "validation failed: "@ + e.words(),
            }.words(),
        )),
{
}

/// What the model is asked names the workflow in the instructions, which the utterance does not
/// change; the utterance is in the prompt, as JSON, and in no other place; and the answer is bound to
/// the schema of the workflow's own parameters.
pub proof fn questions_keep_instructions_and_utterance_apart(
    def: WorkflowDefinitionView,
    a: Seq<char>,
    b: Seq<char>,
    other: WorkflowDefinitionView,
)
    ensures
        request_of(def, a).system == request_of(def, b).system,
        request_of(def, a).schema == schema::schema_of(def.parameters),
        request_of(def, a).prompt == "Utterance: "@ + serde_text::json_text(JsonView::Str(a)),
        text::has_within(request_of(def, a).system, "\""@ + def.id + "\" workflow"@),
        other.id == def.id ==> request_of(other, a).system == request_of(def, a).system,
{
    let id = "\""@ + def.id + "\" workflow"@;
    reveal_strlit("You extract structured parameters for the \"");
    reveal_strlit("\"");
    reveal_strlit("\" workflow");
    reveal_strlit(
        "\" workflow from a user's utterance. Respond with ONLY a JSON object matching the given schema -- never invent a parameter the schema does not declare, and never respond on behalf of any other workflow.",
    );
    let s = request_of(def, a).system;
    let start = "You extract structured parameters for the \""@.len() - 1;
    let rest = "\" workflow from a user's utterance. Respond with ONLY a JSON object matching the given schema -- never invent a parameter the schema does not declare, and never respond on behalf of any other workflow."@;
    assert(rest.take(10) =~= "\" workflow"@);
    assert(s.subrange(start, start + id.len()) =~= id) by {
        assert forall|i: int| 0 <= i < id.len() implies s[start + i] == id[i] by {
            if i > def.id.len() {
                assert(rest.take(10)[i - 1 - def.id.len()] == "\" workflow"@[i - 1 - def.id.len()]);
            }
        }
    }
}

/// What is found in an answer is what was said of it, and the model is asked about every workflow that
/// has parameters, and about no other.
pub proof fn models_are_asked_for_parameters(
    def: WorkflowDefinition,
    utterance: &str,
    q: Option<ExtractionRequest>,
    raw: Result<Json, RouterError>,
    r: (Option<Json>, Option<String>),
    none: Json,
)
    requires
        call_ensures(extraction_request, (&def, utterance), q),
        call_ensures(check_extraction, (&def, raw), r),
        call_ensures(no_parameters, (), none),
    ensures
        q is None <==> def@.parameters.dom() == Set::<Seq<char>>::empty(),
        q matches Some(x) ==> x.system@ == request_of(def@, utterance@).system && x.prompt@ == request_of(
            def@,
            utterance@,
        ).prompt && x.schema@ == request_of(def@, utterance@).schema,
        wire::optional_json(r.0) == extraction_of(def@, answer_view(raw)).0,
        definition::optional_text(r.1) == extraction_of(def@, answer_view(raw)).1,
        none@ matches JsonView::Object(m) && m.dom() == Set::<Seq<char>>::empty(),
{
    if def@.parameters.dom() == Set::<Seq<char>>::empty() {
        assert(def@.parameters =~= Map::empty());
    }
    if let Some(x) = q {
        assert(x@ == request_of(def@, utterance@));
    }
}

} // verus!
