//! The log of steps that runs took: one file for each day.

use vstd::prelude::*;

use crate::json::{Json, JsonView};
use crate::paths;
use crate::rotation;
use crate::wire;
use crate::wire::ActivityPhase;

verus! {

/// A step of a run as it is kept.
#[derive(Debug, PartialEq)]
pub struct ActivityRecord {
    pub run_id: String,
    pub workflow_id: String,
    pub client_name: String,
    pub session_id: String,
    pub phase: ActivityPhase,
    pub at_ms: u64,
    pub detail: Option<Json>,
}

pub struct RecordView {
    pub run_id: Seq<char>,
    pub workflow_id: Seq<char>,
    pub client_name: Seq<char>,
    pub session_id: Seq<char>,
    pub phase: ActivityPhase,
    pub at_ms: u64,
    pub detail: Option<JsonView>,
}

impl View for ActivityRecord {
    type V = RecordView;

    open spec fn view(&self) -> RecordView {
        RecordView {
            run_id: self.run_id@,
            workflow_id: self.workflow_id@,
            client_name: self.client_name@,
            session_id: self.session_id@,
            phase: self.phase,
            at_ms: self.at_ms,
            detail: wire::optional_json(self.detail),
        }
    }
}

/// What the names of the files start with.
pub const STEM: &'static str = "activities";

/// The path of the file of a day.
pub fn file_path_for(dir: &str, date: &str) -> (r: String)
    ensures
        r@ == paths::joined(dir@, rotation::file_name("activities"@, date@)),
{
    rotation::file_path_for(STEM, dir, date)
}

/// The day of a file of the log; none where the file is not one.
pub fn parse_date_from_filename(name: &str) -> (r: Option<i64>)
    requires
        rotation::name_is_countable("activities"@, name@),
    ensures
        match r {
            Some(day) => rotation::day_of_name("activities"@, name@) == Some(day as int),
            None => rotation::day_of_name("activities"@, name@) is None,
        },
{
    rotation::parse_date_from_filename(STEM, name)
}

/// The files of the log are named `activities`, their day, and `.jsonl`.
pub proof fn files_are_named_by_day(dir: &str, date: &str, p: String)
    requires
        call_ensures(file_path_for, (dir, date), p),
    ensures
        p@ == paths::joined(dir@, "activities"@ + "-"@ + date@ + ".jsonl"@),
{
}

} // verus!
