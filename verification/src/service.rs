//! What a handler is to the rest: something that is started, asked for its status, and asked for
//! its result.

use vstd::prelude::*;

verus! {

/// Stands for one run of a handler. What is in it is the handler's own affair.
#[derive(Debug, Clone, PartialEq, Eq, Hash)]
pub struct RunHandle(String);

impl View for RunHandle {
    type V = Seq<char>;

    closed spec fn view(&self) -> Seq<char> {
        self.0@
    }
}

impl RunHandle {
    /// The handle for the id.
    pub fn new(id: String) -> (r: Self)
        ensures
            r@ == id@,
    {
        RunHandle(id)
    }

    /// The id that the handle was made from.
    pub fn id(&self) -> (r: &String)
        ensures
            r@ == self@,
    {
        &self.0
    }
}

/// Where a run is. `Running` is never reported to a caller.
#[derive(Debug, Clone, Copy, PartialEq, Eq, Structural)]
pub enum RunStatus {
    Running,
    Completed,
    Failed,
}

/// Why a handler did not do what it was asked.
#[derive(Debug, PartialEq)]
pub struct ServiceError {
    pub detail: String,
}

impl View for ServiceError {
    type V = Seq<char>;

    open spec fn view(&self) -> Seq<char> {
        self.detail@
    }
}

/// A handle gives back the id that it was made from.
pub proof fn handles_keep_their_ids(id: String, h: RunHandle, back: &String)
    requires
        call_ensures(RunHandle::new, (id,), h),
        call_ensures(RunHandle::id, (&h,), back),
    ensures
        back@ == id@,
{
}

} // verus!
