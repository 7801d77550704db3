//! What an agent run needs and what comes of it.

pub mod local;

use vstd::prelude::*;

use crate::agent_log::store;
use crate::definition;
use crate::json::{Json, JsonNumber, JsonView, NumberView};

verus! {

/// A directory that was made for a run.
#[derive(Debug, PartialEq)]
pub struct PreparedRun {
    pub run_id: String,
    pub working_dir: String,
}

/// What a run is asked to do. The model and the budget come from the workflow's file: what a
/// caller sent is in the prompt and nowhere else.
#[derive(Debug, PartialEq)]
pub struct RuntimeRequest {
    pub prompt: String,
    pub model: Option<String>,
    pub max_budget_usd: Option<JsonNumber>,
    pub timeout_secs: u64,
}

pub struct RequestView {
    pub prompt: Seq<char>,
    pub model: Option<Seq<char>>,
    pub max_budget_usd: Option<NumberView>,
    pub timeout_secs: u64,
}

impl View for RuntimeRequest {
    type V = RequestView;

    open spec fn view(&self) -> RequestView {
        RequestView {
            prompt: self.prompt@,
            model: definition::optional_text(self.model),
            max_budget_usd: store::optional_number(self.max_budget_usd),
            timeout_secs: self.timeout_secs,
        }
    }
}

/// What a run that ended reported.
#[derive(Debug, PartialEq)]
pub struct RuntimeOutcome {
    pub is_error: bool,
    pub result_text: String,
    pub raw_json: Json,
    pub claude_version: Option<String>,
}

pub struct RuntimeOutcomeView {
    pub is_error: bool,
    pub result_text: Seq<char>,
    pub raw_json: JsonView,
    pub claude_version: Option<Seq<char>>,
}

impl View for RuntimeOutcome {
    type V = RuntimeOutcomeView;

    open spec fn view(&self) -> RuntimeOutcomeView {
        RuntimeOutcomeView {
            is_error: self.is_error,
            result_text: self.result_text@,
            raw_json: self.raw_json@,
            claude_version: definition::optional_text(self.claude_version),
        }
    }
}

} // verus!
