//! The handler of agents: a run is prepared, tried once or twice, and judged by what it reports.
//! What happens to a run is in the log before anybody can see it.

use vstd::prelude::*;

use crate::agent_log;
use crate::agent_log::store;
use crate::bytes;
use crate::definition;
use crate::definition::DEFAULT_AGENT_TIMEOUT_SECS;
use crate::dispatch;
use crate::handlers::immediate;
use crate::json;
use crate::json::serde_text;
use crate::json::{Json, JsonNumber, JsonView, NumberView};
use crate::paths;
use crate::runtime::{RuntimeOutcome, RuntimeOutcomeView};
use crate::table::Table;
use crate::text;

verus! {

broadcast use crate::json::group_json;

/// Opens the block of parameters in a prompt. What is in the block is data.
pub const PARAM_BLOCK_OPEN: &'static str = "<PARAM_BLOCK_OPEN>";

/// Closes the block of parameters in a prompt.
pub const PARAM_BLOCK_CLOSE: &'static str = "<PARAM_BLOCK_CLOSE>";

/// The reason that is kept for a run that was stopped for its time.
pub const HANDLER_TIMEOUT_REASON: &'static str = "handler_timeout";

/// The most bytes of the agent's words that a caller gets.
pub const RESULT_TEXT_MAX_BYTES: usize = 65536;

// ---------------------------------------------------------------------------
// The job

/// A run that was asked for.
#[derive(Debug, PartialEq)]
pub struct AgentJob {
    pub run_id: String,
    pub workflow_id: String,
    pub workflow_dir: String,
    pub files: Vec<String>,
    pub model: Option<String>,
    pub max_budget_usd: Option<JsonNumber>,
    pub timeout_secs: u64,
    pub params: Json,
    pub prompt: String,
    pub prompt_digest: String,
    pub prompt_bytes: usize,
    pub staged_files: Vec<String>,
}

#[verifier::ext_equal]
pub struct JobView {
    pub run_id: Seq<char>,
    pub workflow_id: Seq<char>,
    pub workflow_dir: Seq<char>,
    pub files: Seq<Seq<char>>,
    pub model: Option<Seq<char>>,
    pub max_budget_usd: Option<NumberView>,
    pub timeout_secs: u64,
    pub params: JsonView,
    pub prompt: Seq<char>,
    pub prompt_digest: Seq<char>,
    pub prompt_bytes: usize,
    pub staged_files: Seq<Seq<char>>,
}

impl View for AgentJob {
    type V = JobView;

    open spec fn view(&self) -> JobView {
        JobView {
            run_id: self.run_id@,
            workflow_id: self.workflow_id@,
            workflow_dir: self.workflow_dir@,
            files: text::texts(self.files@),
            model: definition::optional_text(self.model),
            max_budget_usd: store::optional_number(self.max_budget_usd),
            timeout_secs: self.timeout_secs,
            params: self.params@,
            prompt: self.prompt@,
            prompt_digest: self.prompt_digest@,
            prompt_bytes: self.prompt_bytes,
            staged_files: text::texts(self.staged_files@),
        }
    }
}

/// The text of a field.
pub open spec fn text_field(v: JsonView, k: Seq<char>) -> Option<Seq<char>> {
    match json::field(v, k) {
        Some(JsonView::Str(t)) => Some(t),
        _ => None,
    }
}

/// The text of a field, or another where there is none.
pub open spec fn text_field_or(v: JsonView, k: Seq<char>, other: Seq<char>) -> Seq<char> {
    match text_field(v, k) {
        Some(t) => t,
        None => other,
    }
}

/// The number in a field.
pub open spec fn number_field(v: JsonView, k: Seq<char>) -> Option<NumberView> {
    match json::field(v, k) {
        Some(JsonView::Number(n)) => Some(n),
        _ => None,
    }
}

/// The seconds that a run may take.
pub open spec fn timeout_of(secs: Option<u64>) -> u64 {
    match secs {
        Some(s) => s,
        None => DEFAULT_AGENT_TIMEOUT_SECS,
    }
}

/// The seconds in a field.
pub open spec fn secs_field(v: JsonView, k: Seq<char>) -> Option<u64> {
    match json::field(v, k) {
        Some(x) => match json::int_between(x, 0, u64::MAX as int) {
            Some(n) => Some(n as u64),
            None => None,
        },
        None => None,
    }
}

/// The seconds that a run may take: what the workflow says, or the default.
pub fn resolve_timeout_secs(envelope_timeout_secs: Option<u64>) -> (r: u64)
    ensures
        r == timeout_of(envelope_timeout_secs),
{
    match envelope_timeout_secs {
        Some(s) => s,
        None => DEFAULT_AGENT_TIMEOUT_SECS,
    }
}

/// A prompt: the prose of the workflow, and the parameters in a block of their own.
pub open spec fn prompt_of(body: Seq<char>, written_params: Seq<char>) -> Seq<char> {
    body + "\n\n"@ + "<PARAM_BLOCK_OPEN>"@ + "\n"@ + written_params + "\n"@ + "<PARAM_BLOCK_CLOSE>"@
}

/// A prompt, given how the parameters are written.
pub fn prompt_with(body: &str, written_params: &str) -> (r: String)
    ensures
        r@ == prompt_of(body@, written_params@),
{
    let mut out = text::concat3(body, "\n\n", PARAM_BLOCK_OPEN);
    out.append("\n");
    out.append(written_params);
    out.append("\n");
    out.append(PARAM_BLOCK_CLOSE);
    out
}

/// The prompt for the prose and the parameters, which are written on one line.
pub fn compose_prompt(body: &str, params: &Json) -> (r: String)
    ensures
        r@ == prompt_of(body@, serde_text::json_text(params@)),
        !serde_text::json_text(params@).contains('\n'),
{
    let written = serde_text::write_json(params);
    prompt_with(body, &written)
}

/// A file as it is kept in the log: as seen from the workflow's directory, where it is in it.
pub open spec fn staged_name(file: Seq<char>, dir: Seq<char>) -> Seq<char> {
    if paths::is_within(file, dir) {
        paths::text_from(file, paths::components(dir).len() as int)
    } else {
        file
    }
}

/// The id of a run.
pub open spec fn agent_id(n: nat) -> Seq<char> {
    "agent-"@ + text::decimal(n)
}

/// The parameters in the input.
pub open spec fn params_of(input: JsonView) -> JsonView {
    match json::field(input, "params"@) {
        Some(v) => v,
        None => JsonView::Null,
    }
}

/// The run that is asked for by what the dispatcher says of the agent and by the parameters.
pub open spec fn job_of(envelope: JsonView, params: JsonView, written_params: Seq<char>, n: nat) -> JobView {
    let dir = text_field_or(envelope, "workflow_dir"@, "."@);
    let files = immediate::texts_of_field(json::field(envelope, "files"@));
    let prompt = prompt_of(text_field_or(envelope, "body"@, Seq::empty()), written_params);
    JobView {
        run_id: agent_id(n),
        workflow_id: text_field_or(envelope, "workflow_id"@, Seq::empty()),
        workflow_dir: dir,
        files,
        model: text_field(envelope, "model"@),
        max_budget_usd: number_field(envelope, "max_budget_usd"@),
        timeout_secs: timeout_of(secs_field(envelope, "timeout_secs"@)),
        params,
        prompt,
        prompt_digest: store::digest(vstd::utf8::encode_utf8(prompt)),
        prompt_bytes: text::utf8_size(prompt) as usize,
        staged_files: files.map_values(|f: Seq<char>| staged_name(f, dir)),
    }
}

fn read_text(v: &Json, k: &str) -> (r: Option<String>)
    ensures
        definition::optional_text(r) == text_field(v@, k@),
{
    match v.get(k) {
        Some(x) => match x.as_str() {
            Some(t) => Some(t.clone()),
            None => None,
        },
        None => None,
    }
}

fn read_text_or(v: &Json, k: &str, other: &str) -> (r: String)
    ensures
        r@ == text_field_or(v@, k@, other@),
{
    match read_text(v, k) {
        Some(t) => t,
        None => other.to_owned(),
    }
}

fn read_number(v: &Json, k: &str) -> (r: Option<JsonNumber>)
    ensures
        store::optional_number(r) == number_field(v@, k@),
{
    match v.get(k) {
        Some(Json::Number(n)) => Some(n.copy()),
        _ => None,
    }
}

fn read_secs(v: &Json, k: &str) -> (r: Option<u64>)
    ensures
        r == secs_field(v@, k@),
{
    match v.get(k) {
        Some(x) => x.as_u64(),
        None => None,
    }
}

fn staged_names(files: &Vec<String>, dir: &str) -> (r: Vec<String>)
    ensures
        text::texts(r@) == text::texts(files@).map_values(|f: Seq<char>| staged_name(f, dir@)),
{
    let ghost want = text::texts(files@).map_values(|f: Seq<char>| staged_name(f, dir@));
    let mut out: Vec<String> = Vec::new();
    let mut i: usize = 0;
    assert(text::texts(out@) =~= want.take(0));
    while i < files.len()
        invariant
            want == text::texts(files@).map_values(|f: Seq<char>| staged_name(f, dir@)),
            i <= files@.len(),
            text::texts(out@) == want.take(i as int),
        decreases files@.len() - i,
    {
        let name = match paths::strip_prefix(&files[i], dir) {
            Some(rel) => rel,
            None => files[i].clone(),
        };
        proof {
            assert(want[i as int] == name@);
            text::texts_push(out@, name);
            assert(want.take(i + 1) =~= want.take(i as int).push(want[i as int]));
        }
        out.push(name);
        i = i + 1;
    }
    assert(want.take(want.len() as int) =~= want);
    out
}

/// The run that is asked for, given how the parameters are written.
pub fn job_with(envelope: &Json, params: Json, written_params: &str, n: u64) -> (r: AgentJob)
    ensures
        r@ == job_of(envelope@, params@, written_params@, n as nat),
{
    let workflow_dir = read_text_or(envelope, "workflow_dir", ".");
    let files = immediate::read_texts(envelope.get("files"));
    let empty = String::new();
    let body = read_text_or(envelope, "body", &empty);
    let prompt = prompt_with(&body, written_params);
    let prompt_digest = store::prompt_digest(prompt.as_str().as_bytes());
    let prompt_bytes = text::size_of(&prompt);
    let staged_files = staged_names(&files, &workflow_dir);
    proof {
        assert(empty@ =~= Seq::<char>::empty());
    }
    AgentJob {
        run_id: text::concat2("agent-", &text::decimal_u64(n)),
        workflow_id: read_text_or(envelope, "workflow_id", &empty),
        workflow_dir,
        files,
        model: read_text(envelope, "model"),
        max_budget_usd: read_number(envelope, "max_budget_usd"),
        timeout_secs: resolve_timeout_secs(read_secs(envelope, "timeout_secs")),
        params,
        prompt,
        prompt_digest,
        prompt_bytes,
        staged_files,
    }
}

// ---------------------------------------------------------------------------
// Judging what a run reports

/// Whether a run did what it was to do.
#[derive(Debug, PartialEq)]
pub enum Classification {
    Completed,
    Failed(String),
}

pub enum ClassificationView {
    Completed,
    Failed(Seq<char>),
}

impl View for Classification {
    type V = ClassificationView;

    open spec fn view(&self) -> ClassificationView {
        match *self {
            Classification::Completed => ClassificationView::Completed,
            Classification::Failed(s) => ClassificationView::Failed(s@),
        }
    }
}

/// The denials in a report.
pub open spec fn denials_in(raw: JsonView) -> Seq<JsonView> {
    match json::field(raw, "permission_denials"@) {
        Some(JsonView::Array(items)) => items,
        _ => Seq::empty(),
    }
}

/// An optional text as it is written for debugging.
pub open spec fn quoted_option(t: Option<Seq<char>>) -> Seq<char> {
    match t {
        Some(s) => "Some("@ + bytes::quoted(s) + ")"@,
        None => "None"@,
    }
}

/// Nothing was denied, and the run says that it came to its end.
pub open spec fn is_clean(raw: JsonView) -> bool {
    &&& denials_in(raw).len() == 0
    &&& text_field(raw, "terminal_reason"@) == Some("completed"@)
    &&& text_field(raw, "subtype"@) == Some("success"@)
}

/// The judgement on a report. What a run says of itself is no proof: only a run without an error,
/// without denials and with the expected end is complete. `reason`, `subtype` and `denials` are
/// what the report has, as it is written.
pub open spec fn judged(
    outcome: RuntimeOutcomeView,
    reason: Seq<char>,
    subtype: Seq<char>,
    denials: Seq<char>,
) -> ClassificationView {
    if outcome.is_error {
        ClassificationView::Failed(outcome.result_text)
    } else if !is_clean(outcome.raw_json) {
        ClassificationView::Failed(
            "agent run did not complete cleanly (terminal_reason="@ + reason + ", subtype="@ + subtype
                + ", permission_denials="@ + denials + ")"@,
        )
    } else {
        ClassificationView::Completed
    }
}

/// The judgement on a report.
pub open spec fn judgement(outcome: RuntimeOutcomeView) -> ClassificationView {
    judged(
        outcome,
        quoted_option(text_field(outcome.raw_json, "terminal_reason"@)),
        quoted_option(text_field(outcome.raw_json, "subtype"@)),
        serde_text::json_text(JsonView::Array(denials_in(outcome.raw_json))),
    )
}

fn quote_option(t: &Option<String>) -> (r: String)
    ensures
        r@ == quoted_option(definition::optional_text(*t)),
{
    match t {
        Some(s) => text::concat3("Some(", &bytes::quoted_text(s), ")"),
        None => "None".to_owned(),
    }
}

fn is_text(t: &Option<String>, want: &str) -> (r: bool)
    ensures
        r == (definition::optional_text(*t) == Some(want@)),
{
    match t {
        Some(s) => text::same_text(s, want),
        None => false,
    }
}

/// The judgement on a report.
pub fn classify_outcome(outcome: &RuntimeOutcome) -> (r: Classification)
    ensures
        r@ == judgement(outcome@),
{
    if outcome.is_error {
        return Classification::Failed(outcome.result_text.clone());
    }
    let denials = match outcome.raw_json.get("permission_denials") {
        Some(v) => v.as_array(),
        None => None,
    };
    let count: usize = match denials {
        Some(items) => items.len(),
        None => 0,
    };
    let reason = read_text(&outcome.raw_json, "terminal_reason");
    let subtype = read_text(&outcome.raw_json, "subtype");
    if count == 0 && is_text(&reason, "completed") && is_text(&subtype, "success") {
        return Classification::Completed;
    }
    let denials_text = match outcome.raw_json.get("permission_denials") {
        Some(v) if v.as_array().is_some() => serde_text::write_json(v),
        _ => {
            let none: Vec<Json> = Vec::new();
            assert(json::items_view(none@) =~= Seq::<JsonView>::empty());
            serde_text::write_json(&Json::Array(none))
        },
    };
    let mut words = text::concat3(
        "agent run did not complete cleanly (terminal_reason=",
        &quote_option(&reason),
        ", subtype=",
    );
    words.append(&quote_option(&subtype));
    words.append(", permission_denials=");
    words.append(&denials_text);
    words.append(")");
    Classification::Failed(words)
}

// ---------------------------------------------------------------------------
// What is kept and what is handed out

/// The fields of a report that are kept.
pub open spec fn kept_fields() -> Set<Seq<char>> {
    Set::<Seq<char>>::empty().insert("is_error"@).insert("subtype"@).insert("terminal_reason"@).insert(
        "stop_reason"@,
    ).insert("session_id"@).insert("num_turns"@).insert("duration_ms"@).insert("duration_api_ms"@).insert(
        "total_cost_usd"@,
    ).insert("usage"@).insert("permission_denials"@)
}

/// The fields of a value; none where it is no object.
pub open spec fn fields_of(raw: JsonView) -> Map<Seq<char>, JsonView> {
    match raw {
        JsonView::Object(m) => m,
        _ => Map::empty(),
    }
}

/// What is kept of a report: the fields above that it has, and no others.
pub open spec fn subset_of(raw: JsonView) -> JsonView {
    JsonView::Object(fields_of(raw).restrict(kept_fields()))
}

/// Keeps one field more.
fn keep(raw: &Json, k: &str, out: &mut Table<Json>, kept: Ghost<Set<Seq<char>>>) -> (now: Ghost<Set<Seq<char>>>)
    requires
        json::fields_view(old(out)@) == fields_of(raw@).restrict(kept@),
    ensures
        json::fields_view(final(out)@) == fields_of(raw@).restrict(now@),
        now@ == kept@.insert(k@),
{
    let ghost m = fields_of(raw@);
    let ghost more = kept@.insert(k@);
    if let Some(v) = raw.get(k) {
        out.insert(k.to_owned(), v.copy());
        assert(m.restrict(more) =~= m.restrict(kept@).insert(k@, m[k@]));
    } else {
        assert(m.restrict(more) =~= m.restrict(kept@));
    }
    Ghost(more)
}

/// What is kept of a report.
pub fn envelope_subset(raw: &Json) -> (r: Json)
    ensures
        r@ == subset_of(raw@),
{
    let mut out: Table<Json> = Table::new();
    assert(fields_of(raw@).restrict(Set::empty()) =~= Map::<Seq<char>, JsonView>::empty());
    let kept = Ghost(Set::empty());
    let kept = keep(raw, "is_error", &mut out, kept);
    let kept = keep(raw, "subtype", &mut out, kept);
    let kept = keep(raw, "terminal_reason", &mut out, kept);
    let kept = keep(raw, "stop_reason", &mut out, kept);
    let kept = keep(raw, "session_id", &mut out, kept);
    let kept = keep(raw, "num_turns", &mut out, kept);
    let kept = keep(raw, "duration_ms", &mut out, kept);
    let kept = keep(raw, "duration_api_ms", &mut out, kept);
    let kept = keep(raw, "total_cost_usd", &mut out, kept);
    let kept = keep(raw, "usage", &mut out, kept);
    let kept = keep(raw, "permission_denials", &mut out, kept);
    Json::Object(out)
}

/// A text as a caller gets it: one that is too long is cut between two characters, and says how
/// much is missing.
pub open spec fn is_clamped(s: Seq<char>, t: Seq<char>) -> bool {
    if text::utf8_size(s) <= RESULT_TEXT_MAX_BYTES {
        t == s
    } else {
        exists|n: int| #[trigger]
            text::is_longest_fit(s, RESULT_TEXT_MAX_BYTES as nat, n) && t == s.take(n) + "... [truncated: "@
                + text::decimal((text::utf8_size(s) - text::utf8_size(s.take(n))) as nat) + " bytes dropped]"@
    }
}

/// A report as a caller gets it: as it is, but for the agent's words.
pub open spec fn is_clamped_report(raw: JsonView, r: JsonView) -> bool {
    match raw {
        JsonView::Object(m) => match text_field(raw, "result"@) {
            Some(s) => r matches JsonView::Object(m2) && m2.dom().contains("result"@) && m2 == m.insert(
                "result"@,
                m2["result"@],
            ) && (m2["result"@] matches JsonView::Str(t) && is_clamped(s, t)),
            None => r == raw,
        },
        _ => r == raw,
    }
}

/// The text as a caller gets it.
pub fn clamp_text(s: &str) -> (r: String)
    ensures
        is_clamped(s@, r@),
{
    let size = text::size_of(s);
    if size <= RESULT_TEXT_MAX_BYTES {
        return s.to_owned();
    }
    let (start, kept) = text::fitting_start(s, RESULT_TEXT_MAX_BYTES);
    let ghost n = choose|n: int| #[trigger]
        text::is_longest_fit(s@, RESULT_TEXT_MAX_BYTES as nat, n) && start@ == s@.take(n) && kept == text::utf8_size(
            s@.take(n),
        );
    proof {
        text::utf8_size_of_start(s@, n);
    }
    let mut out = text::concat3(&start, "... [truncated: ", &text::decimal_u64((size - kept) as u64));
    out.append(" bytes dropped]");
    out
}

/// The report as a caller gets it.
pub fn clamp_result_text(raw: Json) -> (r: Json)
    ensures
        is_clamped_report(raw@, r@),
{
    let clamped = match raw.get("result") {
        Some(v) => match v.as_str() {
            Some(s) => Some(clamp_text(s)),
            None => None,
        },
        None => None,
    };
    match raw {
        Json::Object(t) => {
            let ghost m = json::fields_view(t@);
            match clamped {
                Some(c) => {
                    let mut t = t;
                    t.insert("result".to_owned(), Json::Str(c));
                    proof {
                        let m2 = json::fields_view(t@);
                        assert(m2 =~= m.insert("result"@, m2["result"@]));
                    }
                    Json::Object(t)
                },
                None => Json::Object(t),
            }
        },
        other => other,
    }
}

// ---------------------------------------------------------------------------
// What holds of it all

/// Parameters that are written on one line cannot end their block: a prompt goes on after the prose
/// with an empty line and three more, and the parameters are all of the second.
pub proof fn parameters_stay_in_their_block(body: Seq<char>, written: Seq<char>)
    requires
        !written.contains('\n'),
    ensures
        ({
            let start = body.len() as int + 2;
            let first = PARAM_BLOCK_OPEN@.len() as int;
            let second = first + 1 + written.len();
            let block = prompt_of(body, written).skip(start);
            &&& prompt_of(body, written).take(start) == body + "\n\n"@
            &&& forall|i: int| 0 <= i < block.len() ==> (#[trigger] block[i] == '\n' <==> i == first || i == second)
            &&& block.subrange(first + 1, second) == written
        }),
{
    reveal_strlit("\n\n");
    reveal_strlit("\n");
    reveal_strlit("<PARAM_BLOCK_OPEN>");
    reveal_strlit("<PARAM_BLOCK_CLOSE>");
    let start = body.len() as int + 2;
    let first = PARAM_BLOCK_OPEN@.len() as int;
    let second = first + 1 + written.len();
    let prompt = prompt_of(body, written);
    let block = prompt.skip(start);
    assert(prompt.take(start) =~= body + "\n\n"@);
    assert(block =~= "<PARAM_BLOCK_OPEN>"@ + "\n"@ + written + "\n"@ + "<PARAM_BLOCK_CLOSE>"@);
    assert(block.subrange(first + 1, second) =~= written);
    assert forall|i: int| 0 <= i < block.len() implies (#[trigger] block[i] == '\n' <==> i == first || i == second) by {
        if first < i < second {
            assert(block[i] == written[i - first - 1]);
        }
    }
}

/// What an agent is asked comes from the definition of its workflow: whatever the caller sends, it
/// reaches the agent as the parameters in the prompt, and in no other way.
pub proof fn jobs_come_from_the_definition(
    d: definition::WorkflowDefinitionView,
    agent: definition::AgentSpecView,
    payload: Map<Seq<char>, JsonView>,
    n: nat,
)
    requires
        d.service.agent == Some(agent),
    ensures
        ({
            let input = dispatch::handler_input(d, payload);
            let params = JsonView::Object(dispatch::without_reserved(payload));
            let written = serde_text::json_text(params);
            let job = job_of(json::field(input, "__agent"@)->0, params_of(input), written, n);
            &&& json::field(input, "__agent"@) is Some
            &&& params_of(input) == params
            &&& job.workflow_id == d.id
            &&& job.workflow_dir == dispatch::workflow_dir(d)
            &&& job.files == agent.files
            &&& job.model == agent.model
            &&& job.max_budget_usd == match dispatch::number_or_null(agent.max_budget_usd) {
                JsonView::Number(b) => Some(b),
                _ => None,
            }
            &&& job.timeout_secs == timeout_of(agent.timeout_secs)
            &&& job.params == params
            &&& job.prompt == prompt_of(d.description, written)
        }),
{
    dispatch::callers_cannot_forge(d, payload);
    let envelope = dispatch::agent_envelope(d, agent);
    reveal_strlit("workflow_id");
    reveal_strlit("body");
    reveal_strlit("workflow_dir");
    reveal_strlit("files");
    reveal_strlit("model");
    reveal_strlit("max_budget_usd");
    reveal_strlit("timeout_secs");
    assert("workflow_id"@.len() == 11);
    assert("body"@.len() == 4);
    assert("workflow_dir"@.len() == 12 && "workflow_dir"@[0] == 'w');
    assert("files"@.len() == 5 && "files"@[0] == 'f');
    assert("model"@.len() == 5 && "model"@[0] == 'm');
    assert("max_budget_usd"@.len() == 14);
    assert("timeout_secs"@.len() == 12 && "timeout_secs"@[0] == 't');
    immediate::text_arrays_are_read_back(agent.files);
    assert(json::field(envelope, "files"@) == Some(dispatch::text_array(agent.files)));
}

/// A run is complete exactly where it reports no error, ended for the reason `completed` and as a
/// `success`, and was denied nothing. A run with an error failed for the words of its result, and any
/// other for words that hold what the report says of its end.
pub proof fn runs_are_judged_by_their_reports(o: RuntimeOutcomeView)
    ensures
        o.is_error ==> judgement(o) == ClassificationView::Failed(o.result_text),
        judgement(o) == ClassificationView::Completed <==> {
            &&& !o.is_error
            &&& o.raw_json matches JsonView::Object(m) && m.dom().contains("terminal_reason"@) && m["terminal_reason"@]
                == JsonView::Str("completed"@) && m.dom().contains("subtype"@) && m["subtype"@] == JsonView::Str(
                "success"@,
            ) && (m.dom().contains("permission_denials"@) ==> (m["permission_denials"@] matches JsonView::Array(items)
                ==> items.len() == 0))
        },
        !o.is_error && !(judgement(o) is Completed) ==> (judgement(o) matches ClassificationView::Failed(why)
            && text::has_prefix(why, "agent run did not complete cleanly (terminal_reason="@)),
{
    if !o.is_error && !is_clean(o.raw_json) {
        let start = "agent run did not complete cleanly (terminal_reason="@;
        let why = judgement(o)->Failed_0;
        assert(why.take(start.len() as int) =~= start);
    }
}

/// The fields of what the dispatcher says are read as they are: a text as a text, a number as a
/// number, seconds as an integer of 64 bits, and a field of another kind as if it were not there.
pub proof fn fields_are_read_by_their_kind(m: Map<Seq<char>, JsonView>, k: Seq<char>, t: Seq<char>, n: NumberView, s: u64)
    ensures
        m.dom().contains(k) && m[k] == JsonView::Str(t) ==> text_field(JsonView::Object(m), k) == Some(t) && text_field_or(
            JsonView::Object(m),
            k,
            Seq::empty(),
        ) == t,
        !(m.dom().contains(k) && m[k] is Str) ==> text_field(JsonView::Object(m), k) is None && text_field_or(
            JsonView::Object(m),
            k,
            t,
        ) == t,
        m.dom().contains(k) && m[k] == JsonView::Number(n) ==> number_field(JsonView::Object(m), k) == Some(n),
        !(m.dom().contains(k) && m[k] is Number) ==> number_field(JsonView::Object(m), k) is None,
        m.dom().contains(k) && m[k] == JsonView::Number(NumberView::Int(s as int)) ==> secs_field(JsonView::Object(m), k)
            == Some(s),
        !(m.dom().contains(k) && m[k] is Number) ==> secs_field(JsonView::Object(m), k) is None,
        timeout_of(Some(s)) == s,
        timeout_of(None) == 600,
{
}

/// A prompt is the prose, an empty line, and the parameters between two lines that mark them as data.
pub proof fn prompts_are_prose_and_parameters(body: Seq<char>, written: Seq<char>)
    ensures
        prompt_of(body, written) == body + "\n\n<PARAM_BLOCK_OPEN>\n"@ + written + "\n<PARAM_BLOCK_CLOSE>"@,
{
    reveal_strlit("\n\n");
    reveal_strlit("\n");
    reveal_strlit("<PARAM_BLOCK_OPEN>");
    reveal_strlit("<PARAM_BLOCK_CLOSE>");
    reveal_strlit("\n\n<PARAM_BLOCK_OPEN>\n");
    reveal_strlit("\n<PARAM_BLOCK_CLOSE>");
    assert("\n\n<PARAM_BLOCK_OPEN>\n"@ =~= "\n\n"@ + "<PARAM_BLOCK_OPEN>"@ + "\n"@);
    assert("\n<PARAM_BLOCK_CLOSE>"@ =~= "\n"@ + "<PARAM_BLOCK_CLOSE>"@);
    assert(prompt_of(body, written) =~= body + "\n\n<PARAM_BLOCK_OPEN>\n"@ + written + "\n<PARAM_BLOCK_CLOSE>"@);
}

/// A job is known by its number, carries the digest and the length of its prompt, and lists its files
/// in their order, those within the workflow's directory as they are seen from there.
pub proof fn jobs_carry_what_the_log_keeps(
    envelope: JsonView,
    params: JsonView,
    written: Seq<char>,
    n: nat,
    i: int,
)
    ensures
        ({
            let job = job_of(envelope, params, written, n);
            &&& job.run_id == "agent-"@ + text::decimal(n)
            &&& job.params == params
            &&& job.prompt_digest == store::digest(vstd::utf8::encode_utf8(job.prompt))
            &&& job.prompt_bytes == vstd::utf8::encode_utf8(job.prompt).len() as usize
            &&& job.staged_files.len() == job.files.len()
            &&& 0 <= i < job.files.len() ==> {
                &&& paths::is_within(job.files[i], job.workflow_dir) ==> job.staged_files[i] == paths::text_from(
                    job.files[i],
                    paths::components(job.workflow_dir).len() as int,
                )
                &&& !paths::is_within(job.files[i], job.workflow_dir) ==> job.staged_files[i] == job.files[i]
            }
        }),
{
}

/// Of a report eleven fields are kept, each as it is, and no others: above all not the agent's words.
pub proof fn eleven_fields_are_kept(m: Map<Seq<char>, JsonView>, k: Seq<char>)
    ensures
        subset_of(JsonView::Object(m)) matches JsonView::Object(s) && (s.dom().contains(k) <==> m.dom().contains(k) && (k
            == "is_error"@ || k == "subtype"@ || k == "terminal_reason"@ || k == "stop_reason"@ || k == "session_id"@ || k
            == "num_turns"@ || k == "duration_ms"@ || k == "duration_api_ms"@ || k == "total_cost_usd"@ || k == "usage"@
            || k == "permission_denials"@)) && (s.dom().contains(k) ==> s[k] == m[k]),
{
}

/// A text of at most 65536 bytes is handed out whole. Of a longer one the most characters are handed
/// out that fit, followed by how many bytes are missing.
pub proof fn long_texts_are_cut(s: Seq<char>, t: Seq<char>)
    requires
        is_clamped(s, t),
    ensures
        text::utf8_size(s) <= 0x1_0000 ==> t == s,
        text::utf8_size(s) > 0x1_0000 ==> exists|n: int|
            0 <= n < s.len() && text::utf8_size(#[trigger] s.take(n)) <= 0x1_0000 && text::utf8_size(s.take(n + 1))
                > 0x1_0000 && t == s.take(n) + "... [truncated: "@ + text::decimal(
                (text::utf8_size(s) - text::utf8_size(s.take(n))) as nat,
            ) + " bytes dropped]"@,
{
    if text::utf8_size(s) > 0x1_0000 {
        let n = choose|n: int| #[trigger]
            text::is_longest_fit(s, 0x1_0000, n) && t == s.take(n) + "... [truncated: "@ + text::decimal(
                (text::utf8_size(s) - text::utf8_size(s.take(n))) as nat,
            ) + " bytes dropped]"@;
        if n == s.len() {
            assert(s.take(n) =~= s);
        }
        assert(text::utf8_size(s.take(n)) <= 0x1_0000);
    }
}

/// What a caller gets of a report is the report, but for its `result`, which is cut where it is a long
/// text. A report without such a text is handed out as it is.
pub proof fn callers_get_the_report(m: Map<Seq<char>, JsonView>, r: JsonView, k: Seq<char>)
    requires
        is_clamped_report(JsonView::Object(m), r),
    ensures
        r matches JsonView::Object(n) && n.dom() == m.dom() && (k != "result"@ && m.dom().contains(k) ==> n[k] == m[k]) && (
        m.dom().contains("result"@) && m["result"@] is Str ==> (n["result"@] matches JsonView::Str(t) && is_clamped(
            m["result"@]->Str_0,
            t,
        ))) && (m.dom().contains("result"@) && !(m["result"@] is Str) ==> n["result"@] == m["result"@]),
{
    if m.dom().contains("result"@) && m["result"@] is Str {
        assert(r->Object_0.dom() =~= m.dom());
    }
}

/// What is made of an envelope, a report or a text is what was said of them above, whichever way it is
/// asked for.
pub proof fn agents_are_prepared_and_judged(
    o: RuntimeOutcome,
    c: Classification,
    secs: Option<u64>,
    t: u64,
    body: &str,
    params: Json,
    p: String,
    envelope: Json,
    written: &str,
    n: u64,
    job: AgentJob,
    raw: Json,
    s: Json,
    text: &str,
    cut: String,
)
    requires
        call_ensures(classify_outcome, (&o,), c),
        call_ensures(resolve_timeout_secs, (secs,), t),
        call_ensures(compose_prompt, (body, &params), p),
        call_ensures(job_with, (&envelope, params, written, n), job),
        call_ensures(envelope_subset, (&raw,), s),
        call_ensures(clamp_text, (text,), cut),
    ensures
        o.is_error ==> (c matches Classification::Failed(why) && why@ == o.result_text@),
        c is Completed <==> judgement(o@) == ClassificationView::Completed,
        t == if secs is Some { secs->0 } else { 600u64 },
        p@ == prompt_of(body@, serde_text::json_text(params@)),
        job@ == job_of(envelope@, params@, written@, n as nat),
        s@ == subset_of(raw@),
        text::utf8_size(text@) <= 0x1_0000 ==> cut@ == text@,
{
    assert(c@ == judgement(o@));
    long_texts_are_cut(text@, cut@);
}

/// Two jobs that look the same are the same in every field.
pub proof fn jobs_are_seen_whole(a: AgentJob, b: AgentJob)
    requires
        a@ == b@,
    ensures
        a.run_id@ == b.run_id@,
        a.workflow_id@ == b.workflow_id@,
        a.workflow_dir@ == b.workflow_dir@,
        text::texts(a.files@) == text::texts(b.files@),
        text::texts(a.staged_files@) == text::texts(b.staged_files@),
        a.prompt@ == b.prompt@,
        a.prompt_digest@ == b.prompt_digest@,
        a.prompt_bytes == b.prompt_bytes,
        a.timeout_secs == b.timeout_secs,
        a.params@ == b.params@,
        definition::same_optional(a.model, b.model),
        a.max_budget_usd is Some <==> b.max_budget_usd is Some,
        a.max_budget_usd is Some ==> a.max_budget_usd->0@ == b.max_budget_usd->0@,
{
}

/// A run that came to no clean end failed in words that hold its reason, its subtype and its denials,
/// as the report has them.
pub proof fn unclean_ends_are_told_of(o: RuntimeOutcomeView, m: Map<Seq<char>, JsonView>, r: Seq<char>, s: Seq<char>, d: Seq<JsonView>)
    requires
        !o.is_error,
        o.raw_json == JsonView::Object(m),
        judgement(o) != ClassificationView::Completed,
        m.dom().contains("permission_denials"@),
        m["permission_denials"@] == JsonView::Array(d),
    ensures
        m.dom().contains("terminal_reason"@) && m["terminal_reason"@] == JsonView::Str(r) && m.dom().contains("subtype"@)
            && m["subtype"@] == JsonView::Str(s) ==> judgement(o) == ClassificationView::Failed(
            "agent run did not complete cleanly (terminal_reason="@ + ("Some("@ + bytes::quoted(r) + ")"@) + ", subtype="@ + (
            "Some("@ + bytes::quoted(s) + ")"@) + ", permission_denials="@ + serde_text::json_text(JsonView::Array(d))
                + ")"@,
        ),
        !m.dom().contains("terminal_reason"@) && !m.dom().contains("subtype"@) ==> judgement(o)
            == ClassificationView::Failed(
            "agent run did not complete cleanly (terminal_reason="@ + "None"@ + ", subtype="@ + "None"@
                + ", permission_denials="@ + serde_text::json_text(JsonView::Array(d)) + ")"@,
        ),
{
}

/// A job is read from the envelope key by key, and where a key is silent, or holds something else, a
/// job does without: nothing for the texts, the current directory for the directory, no files, no model,
/// no budget, and ten minutes.
pub proof fn jobs_do_without_what_is_silent(
    m: Map<Seq<char>, JsonView>,
    params: JsonView,
    written: Seq<char>,
    n: nat,
    t: Seq<char>,
    b: NumberView,
    s: u64,
    items: Seq<JsonView>,
    input: Map<Seq<char>, JsonView>,
)
    ensures
        ({
            let job = job_of(JsonView::Object(m), params, written, n);
            &&& m.dom().contains("workflow_id"@) && m["workflow_id"@] == JsonView::Str(t) ==> job.workflow_id == t
            &&& !(m.dom().contains("workflow_id"@) && m["workflow_id"@] is Str) ==> job.workflow_id.len() == 0
            &&& m.dom().contains("workflow_dir"@) && m["workflow_dir"@] == JsonView::Str(t) ==> job.workflow_dir == t
            &&& !(m.dom().contains("workflow_dir"@) && m["workflow_dir"@] is Str) ==> job.workflow_dir == "."@
            &&& m.dom().contains("body"@) && m["body"@] == JsonView::Str(t) ==> job.prompt == prompt_of(t, written)
            &&& !(m.dom().contains("body"@) && m["body"@] is Str) ==> job.prompt == prompt_of(Seq::empty(), written)
            &&& m.dom().contains("model"@) && m["model"@] == JsonView::Str(t) ==> job.model == Some(t)
            &&& !(m.dom().contains("model"@) && m["model"@] is Str) ==> job.model is None
            &&& m.dom().contains("max_budget_usd"@) && m["max_budget_usd"@] == JsonView::Number(b) ==> job.max_budget_usd
                == Some(b)
            &&& !(m.dom().contains("max_budget_usd"@) && m["max_budget_usd"@] is Number) ==> job.max_budget_usd is None
            &&& m.dom().contains("timeout_secs"@) && m["timeout_secs"@] == JsonView::Number(NumberView::Int(s as int))
                ==> job.timeout_secs == s
            &&& !(m.dom().contains("timeout_secs"@) && m["timeout_secs"@] is Number) ==> job.timeout_secs == 600
            &&& m.dom().contains("files"@) && m["files"@] == JsonView::Array(items) ==> job.files
                == immediate::texts_of_field(Some(JsonView::Array(items)))
            &&& !(m.dom().contains("files"@) && m["files"@] is Array) ==> job.files.len() == 0
        }),
        input.dom().contains("params"@) ==> params_of(JsonView::Object(input)) == input["params"@],
        !input.dom().contains("params"@) ==> params_of(JsonView::Object(input)) == JsonView::Null,
{
}

/// What is seen of a judgement is what it is.
pub proof fn judgements_are_seen_as_they_are(c: Classification)
    ensures
        c is Completed <==> c@ is Completed,
        c matches Classification::Failed(why) ==> c@ == ClassificationView::Failed(why@),
{
}

} // verus!
