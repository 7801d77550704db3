//! The handler of timers: a run goes on until its time has come.

use vstd::prelude::*;

use crate::json;
use crate::json::{Json, JsonView};
use crate::service::{RunHandle, RunStatus, ServiceError};
use crate::table::Table;
use crate::text;

verus! {

broadcast use crate::json::group_json;

/// The nanoseconds in the longest span of time that there is.
pub const MAX_SPAN_NS: u128 = 18446744073709551615999999999;

/// The nanoseconds in a minute.
pub const MINUTE_NS: u128 = 60000000000;

/// The handler. Moments are nanoseconds on a clock that never goes back.
pub struct TimerService {
    /// The span that one unit of a duration stands for.
    pub unit_ns: u128,
    pub deadlines: Table<u128>,
    pub next_id: u64,
}

/// The units in a duration: none for a negative one.
pub open spec fn units_in(minutes: int) -> int {
    if minutes <= 0 {
        0
    } else {
        minutes
    }
}

/// The duration in the input.
pub open spec fn duration_of(input: JsonView) -> Option<int> {
    match json::field(input, "duration_minutes"@) {
        Some(v) => json::int_between(v, i64::MIN as int, i64::MAX as int),
        None => None,
    }
}

/// The span that the input asks for is one that there is.
pub open spec fn span_fits(unit_ns: u128, input: JsonView) -> bool {
    match duration_of(input) {
        Some(m) => unit_ns * units_in(m) <= MAX_SPAN_NS,
        None => true,
    }
}

fn read_duration(input: &Json) -> (r: Option<i64>)
    ensures
        match r {
            Some(m) => duration_of(input@) == Some(m as int),
            None => duration_of(input@) is None,
        },
{
    match input.get("duration_minutes") {
        Some(v) => v.as_i64(),
        None => None,
    }
}

fn units(minutes: i64) -> (r: u64)
    ensures
        r == units_in(minutes as int),
{
    if minutes <= 0 {
        0
    } else {
        minutes as u64
    }
}

impl TimerService {
    /// The handler, with durations in minutes.
    pub fn new() -> (r: Self)
        ensures
            r.unit_ns == MINUTE_NS,
            r.deadlines@ == Map::<Seq<char>, u128>::empty(),
            r.next_id == 0,
    {
        TimerService::with_unit(MINUTE_NS)
    }

    /// The handler, with durations in the given unit.
    pub fn with_unit(unit_ns: u128) -> (r: Self)
        ensures
            r.unit_ns == unit_ns,
            r.deadlines@ == Map::<Seq<char>, u128>::empty(),
            r.next_id == 0,
    {
        TimerService { unit_ns, deadlines: Table::new(), next_id: 0 }
    }

    /// Whether the span that the input asks for is one that there is.
    pub fn can_span(&self, input: &Json) -> (r: bool)
        ensures
            r == span_fits(self.unit_ns, input@),
    {
        match read_duration(input) {
            Some(m) => match self.unit_ns.checked_mul(units(m) as u128) {
                Some(span) => span <= MAX_SPAN_NS,
                None => false,
            },
            None => true,
        }
    }

    /// Starts a timer.
    pub fn invoke(&mut self, input: &Json, now_ns: u128) -> (r: Result<RunHandle, ServiceError>)
        requires
            span_fits(old(self).unit_ns, input@),
            old(self).next_id < u64::MAX,
            now_ns <= MAX_SPAN_NS,
        ensures
            final(self).unit_ns == old(self).unit_ns,
            match r {
                Ok(h) => {
                    &&& duration_of(input@) is Some
                    &&& h@ == "timer-"@ + text::decimal(old(self).next_id as nat)
                    &&& final(self).deadlines@ == old(self).deadlines@.insert(
                        h@,
                        (now_ns + old(self).unit_ns * units_in(duration_of(input@)->0)) as u128,
                    )
                    &&& final(self).next_id == old(self).next_id + 1
                },
                Err(e) => {
                    &&& duration_of(input@) is None
                    &&& e@ == "missing or non-integer `duration_minutes`"@
                    &&& final(self).deadlines@ == old(self).deadlines@
                    &&& final(self).next_id == old(self).next_id
                },
            },
    {
        let minutes: i64 = match read_duration(input) {
            Some(m) => m,
            None => {
                return Err(ServiceError { detail: "missing or non-integer `duration_minutes`".to_owned() });
            },
        };
        let count: u128 = units(minutes) as u128;
        assert(self.unit_ns * count >= 0) by (nonlinear_arith)
            requires
                self.unit_ns >= 0,
                count >= 0,
        ;
        let deadline: u128 = now_ns + self.unit_ns * count;
        let id = text::concat2("timer-", &text::decimal_u64(self.next_id));
        self.next_id = self.next_id + 1;
        self.deadlines.insert(id.clone(), deadline);
        Ok(RunHandle::new(id))
    }

    /// Where a timer is: it goes on until its time has come.
    pub fn status(&self, handle: &RunHandle, now_ns: u128) -> (r: Result<RunStatus, ServiceError>)
        ensures
            match r {
                Ok(s) => self.deadlines@.dom().contains(handle@) && s == if now_ns < self.deadlines@[handle@] {
                    RunStatus::Running
                } else {
                    RunStatus::Completed
                },
                Err(e) => !self.deadlines@.dom().contains(handle@) && e@ == "unknown timer handle"@,
            },
    {
        match self.deadlines.get(handle.id()) {
            Some(deadline) => if now_ns < *deadline {
                Ok(RunStatus::Running)
            } else {
                Ok(RunStatus::Completed)
            },
            None => Err(ServiceError { detail: "unknown timer handle".to_owned() }),
        }
    }

    /// What a timer produces.
    pub fn result(&self, handle: &RunHandle) -> (r: Result<Option<Json>, ServiceError>)
        ensures
            match r {
                Ok(v) => self.deadlines@.dom().contains(handle@) && v is Some && v->0@ == JsonView::Object(
                    Map::<Seq<char>, JsonView>::empty().insert("timer_completed"@, JsonView::Bool(true)),
                ),
                Err(e) => !self.deadlines@.dom().contains(handle@) && e@ == "unknown timer handle"@,
            },
    {
        if self.deadlines.contains_key(handle.id()) {
            let mut t: Table<Json> = Table::new();
            t.insert("timer_completed".to_owned(), Json::Bool(true));
            Ok(Some(Json::Object(t)))
        } else {
            Err(ServiceError { detail: "unknown timer handle".to_owned() })
        }
    }
}

impl Default for TimerService {
    fn default() -> (r: Self)
        ensures
            r.unit_ns == MINUTE_NS,
            r.deadlines@ == Map::<Seq<char>, u128>::empty(),
            r.next_id == 0,
    {
        TimerService::new()
    }
}

/// A timer that is set for a number of minutes goes on for just as long, and is complete from then
/// on; one for a negative number is complete at once. Its handle is known from then on, and those of
/// other timers are as they were.
pub proof fn timers_go_on_for_their_minutes(
    before: TimerService,
    after: TimerService,
    m: Map<Seq<char>, JsonView>,
    input: Json,
    minutes: i64,
    now: u128,
    r: Result<RunHandle, ServiceError>,
    h: RunHandle,
    then: u128,
    s: Result<RunStatus, ServiceError>,
    v: Result<Option<Json>, ServiceError>,
)
    requires
        input@ == JsonView::Object(m),
        m.dom().contains("duration_minutes"@),
        m["duration_minutes"@] == JsonView::Number(crate::json::NumberView::Int(minutes as int)),
        before.unit_ns == 60_000_000_000,
        before.unit_ns * minutes <= 18446744073709551615999999999,
        now <= 18446744073709551615999999999,
        exists|t: &mut TimerService|
            #![trigger call_ensures(TimerService::invoke, (t, &input, now), r)]
            *t == before && *final(t) == after && call_ensures(TimerService::invoke, (t, &input, now), r),
        call_ensures(TimerService::status, (&after, &h, then), s),
        call_ensures(TimerService::result, (&after, &h), v),
    ensures
        r is Ok,
        r->Ok_0@ == "timer-"@ + text::decimal(before.next_id as nat),
        after.next_id == before.next_id + 1,
        after.unit_ns == before.unit_ns,
        h@ == r->Ok_0@ ==> s == Ok::<RunStatus, ServiceError>(
            if then < now + 60_000_000_000 * (if minutes > 0 { minutes as int } else { 0 }) {
                RunStatus::Running
            } else {
                RunStatus::Completed
            },
        ),
        h@ != r->Ok_0@ ==> (s is Ok <==> before.deadlines@.dom().contains(h@)),
        h@ != r->Ok_0@ && s is Ok ==> (s->Ok_0 is Running <==> then < before.deadlines@[h@]) && !(s->Ok_0 is Failed),
        s is Err ==> s->Err_0.detail@ == "unknown timer handle"@ && v is Err && v->Err_0.detail@
            == "unknown timer handle"@,
        s is Ok ==> (v matches Ok(Some(j)) && (j@ matches JsonView::Object(o) && o.dom() == set!["timer_completed"@]
            && o["timer_completed"@] == JsonView::Bool(true))),
{
    assert(before.unit_ns * units_in(minutes as int) == 60_000_000_000 * units_in(minutes as int));
    if s is Ok {
        assert(v->Ok_0->0@->Object_0.dom() =~= set!["timer_completed"@]);
    }
}

/// An input without a number of minutes starts no timer, and changes nothing.
pub proof fn timers_need_their_minutes(
    before: TimerService,
    after: TimerService,
    input: Json,
    now: u128,
    r: Result<RunHandle, ServiceError>,
)
    requires
        !(json::field(input@, "duration_minutes"@) matches Some(JsonView::Number(crate::json::NumberView::Int(_)))),
        exists|t: &mut TimerService|
            #![trigger call_ensures(TimerService::invoke, (t, &input, now), r)]
            *t == before && *final(t) == after && call_ensures(TimerService::invoke, (t, &input, now), r),
    ensures
        r is Err,
        r->Err_0.detail@ == "missing or non-integer `duration_minutes`"@,
        after.deadlines@ == before.deadlines@,
        after.next_id == before.next_id,
{
}

/// Durations are minutes unless another unit is given, and there are no timers at first.
pub proof fn timers_count_minutes(r: TimerService, u: TimerService, unit: u128, input: Json, b: bool)
    requires
        call_ensures(TimerService::new, (), r),
        call_ensures(TimerService::with_unit, (unit,), u),
        call_ensures(TimerService::can_span, (&u, &input), b),
    ensures
        r.unit_ns == 60_000_000_000,
        r.next_id == 0,
        r.deadlines@.dom() == Set::<Seq<char>>::empty(),
        u.unit_ns == unit,
        u.next_id == 0,
        u.deadlines@.dom() == Set::<Seq<char>>::empty(),
        match json::field(input@, "duration_minutes"@) {
            Some(JsonView::Number(crate::json::NumberView::Int(n))) => 0 <= n <= i64::MAX ==> (b <==> unit * n
                <= 18446744073709551615999999999),
            _ => b,
        },
{
    if let Some(JsonView::Number(crate::json::NumberView::Int(n))) = json::field(input@, "duration_minutes"@) {
        assert(unit * units_in(0) == 0) by (nonlinear_arith)
            requires
                units_in(0) == 0,
        ;
    }
}

} // verus!
