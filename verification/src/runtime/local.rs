//! Agent runs as child processes on this machine: what the child is started with, what its output
//! means, which files it gets, and which directories are swept.

use vstd::prelude::*;

use crate::bytes;
use crate::definition;
use crate::definition::DEFAULT_AGENT_MAX_BUDGET_USD;
use crate::error::{RuntimeError, RuntimeErrorView};
use crate::json;
use crate::json::serde_text;
use crate::json::{Json, JsonNumber, JsonView, NumberView};
use crate::paths;
use crate::runtime::{RequestView, RuntimeOutcome, RuntimeOutcomeView, RuntimeRequest};
use crate::text;

verus! {

broadcast use crate::json::group_json;

/// What the names of the directories start with that are made for runs.
pub const SCRATCH_PREFIX: &'static str = "agent-run-";

/// The hours for which the directory of a run is kept.
pub const SCRATCH_RETAIN_HOURS: u64 = 24;

/// The seconds that the question for the version may take.
pub const CLAUDE_VERSION_TIMEOUT_SECS: u64 = 5;

/// The runtime: where the program and the directories are.
#[derive(Debug, PartialEq)]
pub struct LocalRuntime {
    /// The name that the program goes by.
    pub program: String,
    pub claude_bin: String,
    pub api_key: String,
    pub scratch_root: String,
    /// What the program said of its version when the runtime was made.
    pub claude_version: Option<String>,
}

// ---------------------------------------------------------------------------
// The version

/// The version in what the program wrote, if it ended well.
pub open spec fn version_in(success: bool, stdout: Seq<u8>) -> Option<Seq<char>> {
    if success && vstd::utf8::valid_utf8(stdout) {
        let t = text::trimmed(vstd::utf8::decode_utf8(stdout));
        if t.len() == 0 {
            None
        } else {
            Some(t)
        }
    } else {
        None
    }
}

/// The version of the program, from how it ended; none where it could not be started, waited for
/// or read. Nothing of this is ever an error.
pub fn claude_version(ended: Option<(bool, Vec<u8>)>) -> (r: Option<String>)
    ensures
        definition::optional_text(r) == match ended {
            Some((success, stdout)) => version_in(success, stdout@),
            None => None,
        },
{
    let (success, stdout) = match ended {
        Some(e) => e,
        None => {
            return None;
        },
    };
    if !success {
        return None;
    }
    let all = match bytes::utf8_text(stdout) {
        Some(t) => t,
        None => {
            return None;
        },
    };
    let t = text::trim(&all);
    if t.as_str().is_empty() {
        None
    } else {
        Some(t)
    }
}

// ---------------------------------------------------------------------------
// Starting the child

/// A number as the standard library writes the double that it stands for.
pub uninterp spec fn double_text(n: NumberView) -> Seq<char>;

/// The double that a number stands for, written out by the standard library: an integer is turned
/// into one by `serde_json::Number::as_f64`, and any other number is read from its text, which may
/// say that it is infinite or no number. A text that is none of these is written as no text.
#[verifier::external_body]
fn write_double(n: &JsonNumber) -> (r: String)
    ensures
        r@ == double_text(n@),
{
    let double = match n {
        JsonNumber::PosInt(u) => serde_json::Number::from(*u).as_f64(),
        JsonNumber::NegInt(i) => serde_json::Number::from(*i).as_f64(),
        JsonNumber::Float(t) => t.parse().ok(),
    };
    double.map_or(String::new(), |x| x.to_string())
}

/// The budget of a run, which always has one.
pub open spec fn budget_of(n: Option<NumberView>) -> NumberView {
    match n {
        Some(n) => n,
        None => NumberView::Float("1.0"@),
    }
}

/// The arguments for a budget as it is written. What the caller sent is in the prompt, and in no
/// other argument.
pub open spec fn arguments(req: RequestView, budget: Seq<char>) -> Seq<Seq<char>> {
    let fixed = seq![
        "-p"@,
        req.prompt,
        "--bare"@,
        "--output-format"@,
        "json"@,
        "--permission-mode"@,
        "bypassPermissions"@,
        "--max-budget-usd"@,
        budget,
    ];
    match req.model {
        Some(m) => fixed.push("--model"@).push(m),
        None => fixed,
    }
}

/// The arguments for a budget as it is written.
pub fn arguments_with_budget(req: &RuntimeRequest, budget: String) -> (r: Vec<String>)
    ensures
        text::texts(r@) == arguments(req@, budget@),
{
    let mut out: Vec<String> = Vec::new();
    out.push("-p".to_owned());
    out.push(req.prompt.clone());
    out.push("--bare".to_owned());
    out.push("--output-format".to_owned());
    out.push("json".to_owned());
    out.push("--permission-mode".to_owned());
    out.push("bypassPermissions".to_owned());
    out.push("--max-budget-usd".to_owned());
    out.push(budget);
    if let Some(m) = &req.model {
        out.push("--model".to_owned());
        out.push(m.clone());
    }
    assert(text::texts(out@) =~= arguments(req@, budget@));
    out
}

/// The arguments that the child is started with. The budget is always among them.
pub fn child_arguments(req: &RuntimeRequest) -> (r: Vec<String>)
    ensures
        text::texts(r@) == arguments(req@, double_text(budget_of(req@.max_budget_usd))),
{
    let budget = match &req.max_budget_usd {
        Some(n) => write_double(n),
        None => write_double(&JsonNumber::Float(DEFAULT_AGENT_MAX_BUDGET_USD.to_owned())),
    };
    arguments_with_budget(req, budget)
}

/// The name of the variable that the child finds the key in.
pub const API_KEY_VARIABLE: &'static str = "ANTHROPIC_API_KEY";

/// What is set in the environment of the child, besides what it takes over: the key, under its name.
pub fn child_environment(runtime: &LocalRuntime) -> (r: (String, String))
    ensures
        r.0@ == "ANTHROPIC_API_KEY"@,
        r.1@ == runtime.api_key@,
{
    (API_KEY_VARIABLE.to_owned(), runtime.api_key.clone())
}

/// What the child is started with.
#[derive(Debug, PartialEq)]
pub struct ChildCommand {
    pub program: String,
    pub working_dir: String,
    /// The variable that is set, and what it is set to.
    pub variable: (String, String),
    pub arguments: Vec<String>,
}

/// What the child of a run is started with: the program of the runtime, in the directory of the run,
/// with the key in its environment.
pub fn child_command(runtime: &LocalRuntime, working_dir: &str, req: &RuntimeRequest) -> (r: ChildCommand)
    ensures
        r.program@ == runtime.claude_bin@,
        r.working_dir@ == working_dir@,
        r.variable.0@ == "ANTHROPIC_API_KEY"@,
        r.variable.1@ == runtime.api_key@,
        text::texts(r.arguments@) == arguments(req@, double_text(budget_of(req@.max_budget_usd))),
{
    ChildCommand {
        program: runtime.claude_bin.clone(),
        working_dir: working_dir.to_owned(),
        variable: child_environment(runtime),
        arguments: child_arguments(req),
    }
}

// ---------------------------------------------------------------------------
// What came of the child

/// What became of the child.
#[derive(Debug, PartialEq)]
pub enum ChildEvent {
    /// It could not be started, or not be waited for.
    NotRun { detail: String },
    /// It went on for longer than it may and was stopped.
    TimedOut,
    Exited { stdout: Vec<u8>, stderr: Vec<u8> },
}

/// What `serde_json::from_slice` makes of bytes: the value they hold, or the words of the error.
pub uninterp spec fn parsed_json_bytes(bytes: Seq<u8>) -> Result<JsonView, Seq<char>>;

/// `serde_json::from_slice` on bytes.
#[verifier::external_body]
fn parse_json_bytes(bytes: &Vec<u8>) -> (r: Result<Json, String>)
    ensures
        match r {
            Ok(j) => parsed_json_bytes(bytes@) == Ok::<JsonView, Seq<char>>(j@),
            Err(e) => parsed_json_bytes(bytes@) == Err::<JsonView, Seq<char>>(e@),
        },
{
    match serde_json::from_slice::<serde_json::Value>(bytes) {
        Ok(v) => Ok(serde_text::json_of_value(v)),
        Err(e) => Err(e.to_string()),
    }
}

/// What a run reported, from what its output was read as. An output that cannot be read, or that
/// does not say whether there was an error, is no report. `stdout` and `stderr` are quoted.
pub open spec fn report_of(
    program: Seq<char>,
    parsed: Result<JsonView, Seq<char>>,
    stdout: Seq<char>,
    stderr: Seq<char>,
    claude_version: Option<Seq<char>>,
) -> Result<RuntimeOutcomeView, RuntimeErrorView> {
    match parsed {
        Err(e) => Err(
            RuntimeErrorView::Envelope {
                detail: "failed to parse "@ + program + " stdout as JSON: "@ + e + " (stdout: "@ + stdout + ", stderr: "@ + stderr
                    + ")"@,
            },
        ),
        Ok(raw) => match json::field(raw, "is_error"@) {
            Some(JsonView::Bool(is_error)) => Ok(
                RuntimeOutcomeView {
                    is_error,
                    result_text: match json::field(raw, "result"@) {
                        Some(JsonView::Str(t)) => t,
                        _ => Seq::empty(),
                    },
                    raw_json: raw,
                    claude_version,
                },
            ),
            _ => Err(
                RuntimeErrorView::Envelope {
                    detail: "envelope missing or non-boolean `is_error` field (stdout: "@ + stdout + ")"@,
                },
            ),
        },
    }
}

/// What an outcome or an error says.
pub open spec fn report_view(r: Result<RuntimeOutcome, RuntimeError>) -> Result<RuntimeOutcomeView, RuntimeErrorView> {
    match r {
        Ok(o) => Ok(o@),
        Err(e) => Err(e@),
    }
}

/// What a run reported, from what its output was read as.
pub fn read_report(
    program: &str,
    parsed: Result<Json, String>,
    stdout: &str,
    stderr: &str,
    claude_version: Option<String>,
) -> (r: Result<RuntimeOutcome, RuntimeError>)
    ensures
        report_view(r) == report_of(
            program@,
            match parsed {
                Ok(j) => Ok(j@),
                Err(e) => Err(e@),
            },
            stdout@,
            stderr@,
            definition::optional_text(claude_version),
        ),
{
    match parsed {
        Err(e) => {
            let mut detail = text::concat3("failed to parse ", program, " stdout as JSON: ");
            detail.append(&e);
            detail.append(" (stdout: ");
            detail.append(stdout);
            detail.append(", stderr: ");
            detail.append(stderr);
            detail.append(")");
            Err(RuntimeError::Envelope { detail })
        },
        Ok(raw) => {
            let flag = match raw.get("is_error") {
                Some(v) => v.as_bool(),
                None => None,
            };
            match flag {
                None => Err(
                    RuntimeError::Envelope {
                        detail: text::concat3(
                            "envelope missing or non-boolean `is_error` field (stdout: ",
                            stdout,
                            ")",
                        ),
                    },
                ),
                Some(is_error) => {
                    let result_text = match raw.get("result") {
                        Some(v) => match v.as_str() {
                            Some(t) => t.clone(),
                            None => String::new(),
                        },
                        None => String::new(),
                    };
                    Ok(RuntimeOutcome { is_error, result_text, raw_json: raw, claude_version })
                },
            }
        },
    }
}

/// What a run reported, from what became of the child. Its exit code does not count: what it says
/// of itself does.
pub fn run_outcome(
    runtime: &LocalRuntime,
    timeout_secs: u64,
    event: ChildEvent,
) -> (r: Result<RuntimeOutcome, RuntimeError>)
    ensures
        report_view(r) == match event {
            ChildEvent::NotRun { detail } => Err(
                RuntimeErrorView::Spawn { binary: runtime.claude_bin@, detail: detail@ },
            ),
            ChildEvent::TimedOut => Err(RuntimeErrorView::Timeout { seconds: timeout_secs }),
            ChildEvent::Exited { stdout, stderr } => report_of(
                runtime.program@,
                parsed_json_bytes(stdout@),
                bytes::quoted(bytes::lossy(stdout@)),
                bytes::quoted(bytes::lossy(stderr@)),
                definition::optional_text(runtime.claude_version),
            ),
        },
{
    match event {
        ChildEvent::NotRun { detail } => Err(RuntimeError::Spawn { binary: runtime.claude_bin.clone(), detail }),
        ChildEvent::TimedOut => Err(RuntimeError::Timeout { seconds: timeout_secs }),
        ChildEvent::Exited { stdout, stderr } => {
            let parsed = parse_json_bytes(&stdout);
            let out = bytes::quoted_text(&bytes::lossy_text(&stdout));
            let err = bytes::quoted_text(&bytes::lossy_text(&stderr));
            read_report(&runtime.program, parsed, &out, &err, definition::copy_optional(&runtime.claude_version))
        },
    }
}

// ---------------------------------------------------------------------------
// The files of a run

/// Where a file is copied from and to.
#[derive(Debug, PartialEq)]
pub struct StagePlan {
    pub source: String,
    pub destination: String,
    /// The directory that has to be there first.
    pub parent: Option<String>,
}

pub struct StagePlanView {
    pub source: Seq<char>,
    pub destination: Seq<char>,
    pub parent: Option<Seq<char>>,
}

impl View for StagePlan {
    type V = StagePlanView;

    open spec fn view(&self) -> StagePlanView {
        StagePlanView {
            source: self.source@,
            destination: self.destination@,
            parent: definition::optional_text(self.parent),
        }
    }
}

/// Where the copy of a file goes, from where the file leads once every link is followed: to the
/// same place below the run's directory as it has below the workflow's.
pub open spec fn stage_plan_of(
    entry: Seq<char>,
    source: Result<Seq<char>, Seq<char>>,
    workflow_dir: Seq<char>,
    scratch_dir: Seq<char>,
) -> Result<StagePlanView, RuntimeErrorView> {
    match source {
        Err(detail) => Err(RuntimeErrorView::Staging { path: entry, detail }),
        Ok(s) => if !paths::is_within(s, workflow_dir) {
            Err(
                RuntimeErrorView::PathEscape {
                    path: entry,
                    reason: "source resolves outside the workflow directory"@,
                },
            )
        } else {
            let destination = paths::joined(
                scratch_dir,
                paths::text_from(s, paths::components(workflow_dir).len() as int),
            );
            Ok(StagePlanView { source: s, destination, parent: paths::parent(destination) })
        },
    }
}

/// Where the copy of a file goes, or why there is none.
pub fn stage_plan(entry: &str, source: Result<String, String>, workflow_dir: &str, scratch_dir: &str) -> (r: Result<
    StagePlan,
    RuntimeError,
>)
    ensures
        match r {
            Ok(p) => stage_plan_of(entry@, text::text_result(source), workflow_dir@, scratch_dir@) == Ok::<
                StagePlanView,
                RuntimeErrorView,
            >(p@),
            Err(e) => stage_plan_of(entry@, text::text_result(source), workflow_dir@, scratch_dir@) == Err::<
                StagePlanView,
                RuntimeErrorView,
            >(e@),
        },
{
    let source = match source {
        Ok(s) => s,
        Err(detail) => {
            return Err(RuntimeError::Staging { path: entry.to_owned(), detail });
        },
    };
    match paths::strip_prefix(&source, workflow_dir) {
        None => Err(
            RuntimeError::PathEscape {
                path: entry.to_owned(),
                reason: "source resolves outside the workflow directory".to_owned(),
            },
        ),
        Some(relative) => {
            let destination = paths::join(scratch_dir, &relative);
            let parent = paths::parent_of(&destination);
            Ok(StagePlan { source, destination, parent })
        },
    }
}

/// What is wrong with a copy that was made, from where it leads: it lies outside the run's
/// directory, and is removed again.
pub open spec fn staged_error(
    entry: Seq<char>,
    destination: Seq<char>,
    landed: Result<Seq<char>, Seq<char>>,
    scratch_dir: Seq<char>,
) -> Option<RuntimeErrorView> {
    match landed {
        Err(detail) => Some(RuntimeErrorView::Staging { path: destination, detail }),
        Ok(d) => if paths::is_within(d, scratch_dir) {
            None
        } else {
            Some(
                RuntimeErrorView::PathEscape {
                    path: entry,
                    reason: "destination resolves outside the scratch directory"@,
                },
            )
        },
    }
}

/// Checks a copy that was made. A copy that lies outside the run's directory is to be removed:
/// that is the case where the error is a `PathEscape`.
pub fn check_staged(entry: &str, destination: &str, landed: Result<String, String>, scratch_dir: &str) -> (r: Result<
    (),
    RuntimeError,
>)
    ensures
        match r {
            Ok(_) => staged_error(entry@, destination@, text::text_result(landed), scratch_dir@) is None,
            Err(e) => staged_error(entry@, destination@, text::text_result(landed), scratch_dir@) == Some(e@),
        },
{
    match landed {
        Err(detail) => Err(RuntimeError::Staging { path: destination.to_owned(), detail }),
        Ok(d) => if paths::starts_with(&d, scratch_dir) {
            Ok(())
        } else {
            Err(
                RuntimeError::PathEscape {
                    path: entry.to_owned(),
                    reason: "destination resolves outside the scratch directory".to_owned(),
                },
            )
        },
    }
}

// ---------------------------------------------------------------------------
// Sweeping

/// Whether the directory is old enough to go. It was changed `secs` seconds and `nanos`
/// nanoseconds ago.
pub open spec fn outlived(secs: u64, nanos: u32, retain_hours: u64) -> bool {
    let limit = if retain_hours * 3600 > u64::MAX {
        u64::MAX as int
    } else {
        retain_hours * 3600
    };
    secs > limit || (secs == limit && nanos > 0)
}

/// Whether an entry of the directory that runs are made in is to be removed: only a directory, no
/// link to one, that was made for a run and is old enough. One that was changed in the future is
/// not.
pub fn to_sweep(name: &str, is_dir: bool, age: Option<(u64, u32)>, retain_hours: u64) -> (r: bool)
    ensures
        r == (is_dir && text::has_prefix(name@, "agent-run-"@) && match age {
            Some((secs, nanos)) => outlived(secs, nanos, retain_hours),
            None => false,
        }),
{
    if !is_dir || !text::starts_with(name, SCRATCH_PREFIX) {
        return false;
    }
    match age {
        Some((secs, nanos)) => {
            let limit: u64 = match retain_hours.checked_mul(3600) {
                Some(n) => n,
                None => u64::MAX,
            };
            secs > limit || (secs == limit && nanos > 0)
        },
        None => false,
    }
}

// ---------------------------------------------------------------------------
// What holds of it all

/// What a caller sent reaches the child in the prompt alone: every other argument is the same
/// whatever the prompt is.
pub proof fn prompt_is_in_one_argument(req: RequestView, other: Seq<char>, budget: Seq<char>)
    ensures
        arguments(req, budget)[1] == req.prompt,
        forall|i: int|
            0 <= i < arguments(req, budget).len() && i != 1 ==> #[trigger] arguments(req, budget)[i] == arguments(
                RequestView { prompt: other, ..req },
                budget,
            )[i],
        arguments(req, budget).len() == arguments(RequestView { prompt: other, ..req }, budget).len(),
{
}

/// Every run has a budget among its arguments.
pub proof fn budget_is_always_there(req: RequestView, budget: Seq<char>)
    ensures
        arguments(req, budget)[7] == "--max-budget-usd"@,
        arguments(req, budget)[8] == budget,
{
}

/// A copy is planned for a place within the run's directory, and only of a file within the
/// workflow's.
pub proof fn staging_stays_within(entry: Seq<char>, source: Seq<char>, workflow_dir: Seq<char>, scratch_dir: Seq<char>)
    requires
        paths::components(workflow_dir).len() > 0,
    ensures
        match stage_plan_of(entry, Ok(source), workflow_dir, scratch_dir) {
            Ok(p) => paths::is_within(p.source, workflow_dir) && paths::is_within(p.destination, scratch_dir),
            Err(_) => !paths::is_within(source, workflow_dir),
        },
{
    if paths::is_within(source, workflow_dir) {
        let rel = paths::text_from(source, paths::components(workflow_dir).len() as int);
        paths::rest_is_relative(source, paths::components(workflow_dir).len() as int);
        paths::joined_is_within(scratch_dir, rel);
    }
}

/// An output that is an object whose `is_error` is a truth value is a report: the outcome has that very
/// truth value, the text of `result`, or none where that is no text, the object itself, and the version
/// of the program. An object without such a field, and a value that is no object, is no report.
pub proof fn reports_say_whether_there_was_an_error(
    program: Seq<char>,
    m: Map<Seq<char>, JsonView>,
    b: bool,
    t: Seq<char>,
    other: JsonView,
    stdout: Seq<char>,
    stderr: Seq<char>,
    version: Option<Seq<char>>,
)
    ensures
        m.dom().contains("is_error"@) && m["is_error"@] == JsonView::Bool(b) ==> {
            &&& report_of(program, Ok(JsonView::Object(m)), stdout, stderr, version) matches Ok(o) && o.is_error == b
                && o.raw_json == JsonView::Object(m) && o.claude_version == version && (m.dom().contains("result"@)
                && m["result"@] == JsonView::Str(t) ==> o.result_text == t) && (!(m.dom().contains("result"@)
                && m["result"@] is Str) ==> o.result_text.len() == 0)
        },
        !(m.dom().contains("is_error"@) && m["is_error"@] is Bool) ==> report_of(
            program,
            Ok(JsonView::Object(m)),
            stdout,
            stderr,
            version,
        ) == Err::<RuntimeOutcomeView, RuntimeErrorView>(
            RuntimeErrorView::Envelope {
                detail: "envelope missing or non-boolean `is_error` field (stdout: "@ + stdout + ")"@,
            },
        ),
        !(other is Object) ==> (report_of(program, Ok(other), stdout, stderr, version) matches Err(
            RuntimeErrorView::Envelope { .. },
        )),
        report_of(program, Err(t), stdout, stderr, version) == Err::<RuntimeOutcomeView, RuntimeErrorView>(
            RuntimeErrorView::Envelope {
                detail: "failed to parse "@ + program + " stdout as JSON: "@ + t + " (stdout: "@ + stdout + ", stderr: "@
                    + stderr + ")"@,
            },
        ),
{
}

/// A run whose report says that there was an error counts as failed, with the text of its result as
/// the reason, whatever else the report says: an error is never judged complete.
pub proof fn reported_errors_are_failures(
    program: Seq<char>,
    m: Map<Seq<char>, JsonView>,
    t: Seq<char>,
    stdout: Seq<char>,
    stderr: Seq<char>,
    version: Option<Seq<char>>,
)
    requires
        m.dom().contains("is_error"@),
        m["is_error"@] == JsonView::Bool(true),
    ensures
        report_of(program, Ok(JsonView::Object(m)), stdout, stderr, version) matches Ok(o) && (
        crate::handlers::ai_agent::judgement(o) matches crate::handlers::ai_agent::ClassificationView::Failed(why) && (
        m.dom().contains("result"@) && m["result"@] == JsonView::Str(t) ==> why == t)),
{
}

/// The arguments of a child are these, in this order, and no others: the prompt behind `-p`, the flags
/// that never change, the budget, and the model where one is set.
pub proof fn arguments_are_these(req: RequestView, budget: Seq<char>)
    ensures
        ({
            let a = arguments(req, budget);
            &&& a[0] == "-p"@ && a[1] == req.prompt && a[2] == "--bare"@ && a[3] == "--output-format"@ && a[4] == "json"@
            &&& a[5] == "--permission-mode"@ && a[6] == "bypassPermissions"@ && a[7] == "--max-budget-usd"@ && a[8]
                == budget
            &&& req.model is None ==> a.len() == 9
            &&& req.model matches Some(m) ==> a.len() == 11 && a[9] == "--model"@ && a[10] == m
        }),
{
}

/// A run has the budget that it was given, and one dollar where it was given none.
pub proof fn budgets_are_as_given(n: NumberView)
    ensures
        budget_of(Some(n)) == n,
        budget_of(None) == NumberView::Float("1.0"@),
{
}

/// A version is what the program wrote, without the white space around it, where it ended well, wrote
/// UTF-8 and wrote something.
pub proof fn versions_are_what_was_written(stdout: Seq<u8>)
    ensures
        version_in(false, stdout) is None,
        !vstd::utf8::valid_utf8(stdout) ==> version_in(true, stdout) is None,
        vstd::utf8::valid_utf8(stdout) ==> {
            let t = text::trimmed(vstd::utf8::decode_utf8(stdout));
            &&& t.len() > 0 ==> version_in(true, stdout) == Some(t)
            &&& t.len() == 0 ==> version_in(true, stdout) is None
        },
{
}

/// A file within the workflow's directory is copied, from where it leads, to the same place below the
/// run's directory; one that leads elsewhere is refused as an escape, by the name it was given under.
/// A copy that landed within the run's directory is kept, and any other is an escape.
pub proof fn files_are_staged_below_the_run(
    entry: Seq<char>,
    source: Seq<char>,
    workflow_dir: Seq<char>,
    scratch_dir: Seq<char>,
    destination: Seq<char>,
    why: Seq<char>,
)
    ensures
        paths::is_within(source, workflow_dir) ==> (stage_plan_of(entry, Ok(source), workflow_dir, scratch_dir) matches Ok(p)
            && p.source == source && p.destination == paths::joined(
            scratch_dir,
            paths::text_from(source, paths::components(workflow_dir).len() as int),
        ) && p.parent == paths::parent(p.destination)),
        !paths::is_within(source, workflow_dir) ==> (stage_plan_of(entry, Ok(source), workflow_dir, scratch_dir) matches Err(
            RuntimeErrorView::PathEscape { path, .. },
        ) && path == entry),
        stage_plan_of(entry, Err(why), workflow_dir, scratch_dir) == Err::<StagePlanView, RuntimeErrorView>(
            RuntimeErrorView::Staging { path: entry, detail: why },
        ),
        paths::is_within(source, scratch_dir) <==> staged_error(entry, destination, Ok(source), scratch_dir) is None,
        !paths::is_within(source, scratch_dir) ==> (staged_error(entry, destination, Ok(source), scratch_dir) matches Some(
            RuntimeErrorView::PathEscape { path, .. },
        ) && path == entry),
        staged_error(entry, destination, Err(why), scratch_dir) == Some(
            RuntimeErrorView::Staging { path: destination, detail: why },
        ),
{
}

/// A directory has outlived its time where it is older than so many hours, to the nanosecond: at that
/// age it is still kept, and just after it is not.
pub proof fn directories_are_kept_for_hours(secs: u64, nanos: u32, hours: u64)
    requires
        hours * 3600 <= u64::MAX,
    ensures
        outlived(secs, nanos, hours) <==> secs > hours * 3600 || (secs == hours * 3600 && nanos > 0),
{
}

/// Two reports that look the same are the same in every field.
pub proof fn reports_are_seen_whole(a: RuntimeOutcome, b: RuntimeOutcome, x: RuntimeRequest, y: RuntimeRequest)
    ensures
        a@ == b@ ==> a.is_error == b.is_error && a.result_text@ == b.result_text@ && a.raw_json@ == b.raw_json@
            && definition::same_optional(a.claude_version, b.claude_version),
        x@ == y@ ==> x.prompt@ == y.prompt@ && definition::same_optional(x.model, y.model) && x.timeout_secs
            == y.timeout_secs && (x.max_budget_usd is Some <==> y.max_budget_usd is Some) && (x.max_budget_usd is Some
            ==> x.max_budget_usd->0@ == y.max_budget_usd->0@),
{
}

/// What is read of an output says whether there was an error just as the output does, and a run that
/// reports one is judged as failed, with the text of its result, whatever else it reports.
pub proof fn errors_are_read_as_reported(
    program: &str,
    j: Json,
    m: Map<Seq<char>, JsonView>,
    b: bool,
    t: Seq<char>,
    stdout: &str,
    stderr: &str,
    version: Option<String>,
    r: Result<RuntimeOutcome, RuntimeError>,
    c: crate::handlers::ai_agent::Classification,
)
    requires
        call_ensures(read_report, (program, Ok::<Json, String>(j), stdout, stderr, version), r),
        j@ == JsonView::Object(m),
        m.dom().contains("is_error"@),
        m["is_error"@] == JsonView::Bool(b),
        m.dom().contains("result"@),
        m["result"@] == JsonView::Str(t),
        r is Ok ==> call_ensures(crate::handlers::ai_agent::classify_outcome, (&r->Ok_0,), c),
    ensures
        r is Ok,
        r->Ok_0.is_error == b,
        r->Ok_0.result_text@ == t,
        r->Ok_0.raw_json@ == j@,
        definition::same_optional(r->Ok_0.claude_version, version),
        b ==> (c matches crate::handlers::ai_agent::Classification::Failed(why) && why@ == t),
{
    reports_say_whether_there_was_an_error(program@, m, b, t, j@, stdout@, stderr@, definition::optional_text(version));
    assert(report_view(r) is Ok);
    let o = r->Ok_0@;
    assert(o.is_error == b && o.result_text == t);
    if b {
        assert(c@ == crate::handlers::ai_agent::ClassificationView::Failed(t));
    }
}

/// A child that could not be run, and one that took too long, end as errors that say so. One that ended
/// is judged by what it wrote, whatever its exit status was.
pub proof fn children_end_as_they_do(
    runtime: LocalRuntime,
    timeout_secs: u64,
    event: ChildEvent,
    r: Result<RuntimeOutcome, RuntimeError>,
)
    requires
        call_ensures(run_outcome, (&runtime, timeout_secs, event), r),
    ensures
        event matches ChildEvent::NotRun { detail } ==> (r matches Err(RuntimeError::Spawn { binary, detail: d }) && binary@
            == runtime.claude_bin@ && d@ == detail@),
        event is TimedOut ==> r == Err::<RuntimeOutcome, RuntimeError>(RuntimeError::Timeout { seconds: timeout_secs }),
        event matches ChildEvent::Exited { stdout, stderr } ==> report_view(r) == report_of(
            runtime.program@,
            parsed_json_bytes(stdout@),
            bytes::quoted(bytes::lossy(stdout@)),
            bytes::quoted(bytes::lossy(stderr@)),
            definition::optional_text(runtime.claude_version),
        ),
{
    assert(report_view(r) is Err ==> r is Err);
}

/// A child is the program of the runtime, in the directory of its run, with the key of the runtime in
/// its environment, and with the prompt, the model and the budget of the request among its arguments.
pub proof fn children_are_started_for_the_request(
    runtime: LocalRuntime,
    dir: &str,
    req: RuntimeRequest,
    r: ChildCommand,
    a: Vec<String>,
    v: (String, String),
    budget: String,
    b: Vec<String>,
)
    requires
        call_ensures(child_command, (&runtime, dir, &req), r),
        call_ensures(child_arguments, (&req,), a),
        call_ensures(child_environment, (&runtime,), v),
        call_ensures(arguments_with_budget, (&req, budget), b),
    ensures
        r.program@ == runtime.claude_bin@,
        r.working_dir@ == dir@,
        r.variable.0@ == "ANTHROPIC_API_KEY"@,
        r.variable.1@ == runtime.api_key@,
        v.0@ == "ANTHROPIC_API_KEY"@,
        v.1@ == runtime.api_key@,
        text::texts(r.arguments@) == text::texts(a@),
        text::texts(r.arguments@)[1] == req.prompt@,
        text::texts(b@)[1] == req.prompt@,
        text::texts(b@)[8] == budget@,
        text::texts(r.arguments@)[8] == double_text(
            if req.max_budget_usd is Some {
                req.max_budget_usd->0@
            } else {
                NumberView::Float("1.0"@)
            },
        ),
        req.model is Some ==> text::texts(r.arguments@).len() == 11 && text::texts(r.arguments@)[10] == req.model->0@
            && text::texts(b@)[10] == req.model->0@,
        req.model is None ==> text::texts(r.arguments@).len() == 9,
{
    arguments_are_these(req@, double_text(budget_of(req@.max_budget_usd)));
    arguments_are_these(req@, budget@);
}

/// The directories of runs are swept once they are too old: what is named otherwise, is no directory,
/// or is of no known age stays.
pub proof fn old_run_directories_are_swept(
    name: &str,
    is_dir: bool,
    secs: u64,
    nanos: u32,
    hours: u64,
    r: bool,
    unknown: bool,
)
    requires
        call_ensures(to_sweep, (name, is_dir, Some((secs, nanos)), hours), r),
        call_ensures(to_sweep, (name, is_dir, None::<(u64, u32)>, hours), unknown),
        hours * 3600 <= u64::MAX,
    ensures
        r <==> is_dir && text::has_prefix(name@, "agent-run-"@) && (secs > hours * 3600 || (secs == hours * 3600 && nanos
            > 0)),
        !unknown,
{
}

/// A file that is to be staged is copied from where it leads to the same place below the run's
/// directory, or is refused; what is refused is refused by the name it was given under.
pub proof fn files_are_staged_or_refused(
    entry: &str,
    source: Result<String, String>,
    workflow_dir: &str,
    scratch_dir: &str,
    r: Result<StagePlan, RuntimeError>,
    destination: &str,
    landed: Result<String, String>,
    c: Result<(), RuntimeError>,
)
    requires
        call_ensures(stage_plan, (entry, source, workflow_dir, scratch_dir), r),
        call_ensures(check_staged, (entry, destination, landed, scratch_dir), c),
    ensures
        r is Ok <==> source is Ok && paths::is_within(source->Ok_0@, workflow_dir@),
        r is Ok ==> r->Ok_0.source@ == source->Ok_0@ && r->Ok_0.destination@ == paths::joined(
            scratch_dir@,
            paths::text_from(source->Ok_0@, paths::components(workflow_dir@).len() as int),
        ),
        source is Ok && r is Err ==> (r->Err_0 matches RuntimeError::PathEscape { path, .. } && path@ == entry@),
        source matches Err(e) ==> (r matches Err(RuntimeError::Staging { path, detail }) && path@ == entry@ && detail@
            == e@),
        c is Ok <==> landed is Ok && paths::is_within(landed->Ok_0@, scratch_dir@),
        landed is Ok && c is Err ==> (c->Err_0 matches RuntimeError::PathEscape { path, .. } && path@ == entry@),
        landed matches Err(e) ==> (c matches Err(RuntimeError::Staging { path, detail }) && path@ == destination@
            && detail@ == e@),
{
    if r is Ok {
        assert(r->Ok_0@.source == source->Ok_0@);
    } else {
        assert(stage_plan_of(entry@, text::text_result(source), workflow_dir@, scratch_dir@) is Err);
    }
}

/// The version of the program is what it wrote when asked, and none where it could not be asked.
pub proof fn versions_are_asked_for(success: bool, stdout: Vec<u8>, r: Option<String>, n: Option<String>)
    requires
        call_ensures(claude_version, (Some((success, stdout)),), r),
        call_ensures(claude_version, (None::<(bool, Vec<u8>)>,), n),
    ensures
        definition::optional_text(r) == version_in(success, stdout@),
        n is None,
{
}

/// What is refused is refused in words that tell which way it led out; an output that is no object is
/// refused as one without the field; and with more hours than can be counted in seconds everything is
/// kept.
pub proof fn refusals_tell_which_way(
    entry: Seq<char>,
    source: Seq<char>,
    workflow_dir: Seq<char>,
    scratch_dir: Seq<char>,
    destination: Seq<char>,
    program: Seq<char>,
    v: JsonView,
    stdout: Seq<char>,
    stderr: Seq<char>,
    version: Option<Seq<char>>,
    secs: u64,
    hours: u64,
)
    ensures
        !paths::is_within(source, workflow_dir) ==> stage_plan_of(entry, Ok(source), workflow_dir, scratch_dir) == Err::<
            StagePlanView,
            RuntimeErrorView,
        >(
            RuntimeErrorView::PathEscape { path: entry, reason: "source resolves outside the workflow directory"@ },
        ),
        !paths::is_within(source, scratch_dir) ==> staged_error(entry, destination, Ok(source), scratch_dir) == Some(
            RuntimeErrorView::PathEscape { path: entry, reason: "destination resolves outside the scratch directory"@ },
        ),
        !(v is Object) ==> report_of(program, Ok(v), stdout, stderr, version) == Err::<RuntimeOutcomeView, RuntimeErrorView>(
            RuntimeErrorView::Envelope {
                detail: "envelope missing or non-boolean `is_error` field (stdout: "@ + stdout + ")"@,
            },
        ),
        hours * 3600 > u64::MAX ==> !outlived(secs, 0, hours),
{
}

/// What is seen of the plan for a file is all of it.
pub proof fn plans_are_seen_as_they_are(p: StagePlan)
    ensures
        p@.source == p.source@,
        p@.destination == p.destination@,
        p@.parent == definition::optional_text(p.parent),
{
}

} // verus!
