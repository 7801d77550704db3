//! The ids of runs. One minter serves the whole daemon: an id is never taken from a client or a
//! connection.

use vstd::prelude::*;

use crate::text;

verus! {

/// The `n`-th run id.
pub open spec fn run_id(n: nat) -> Seq<char> {
    "run-"@ + text::decimal(n)
}

/// The number in a run id, read as `str::parse` reads it.
pub open spec fn run_number(id: Seq<char>) -> Option<nat> {
    numbered("run-"@, id)
}

/// The number that follows `prefix` in an id.
pub open spec fn numbered(prefix: Seq<char>, id: Seq<char>) -> Option<nat> {
    if text::has_prefix(id, prefix) {
        text::unsigned_value(id.skip(prefix.len() as int), u64::MAX as nat)
    } else {
        None
    }
}

/// The number that follows the prefix in an id, where one does.
pub fn number_in(prefix: &str, id: &str) -> (r: Option<u64>)
    ensures
        match r {
            Some(n) => numbered(prefix@, id@) == Some(n as nat),
            None => numbered(prefix@, id@) is None,
        },
{
    match text::strip_prefix(id, prefix) {
        Some(rest) => text::parse_u64(&rest),
        None => None,
    }
}

/// The number in an id is the one that it was minted from.
pub proof fn number_read_back(prefix: Seq<char>, n: nat)
    requires
        n <= u64::MAX,
    ensures
        numbered(prefix, prefix + text::decimal(n)) == Some(n),
{
    let id = prefix + text::decimal(n);
    assert(id.take(prefix.len() as int) =~= prefix);
    assert(id.skip(prefix.len() as int) =~= text::decimal(n));
    text::decimal_read_back(n);
}

/// Two run ids with different numbers are different.
pub proof fn run_ids_are_distinct(m: nat, n: nat)
    requires
        m != n,
    ensures
        run_id(m) != run_id(n),
{
    if run_id(m) == run_id(n) {
        let k = "run-"@.len() as int;
        assert(run_id(m).skip(k) =~= text::decimal(m));
        assert(run_id(n).skip(k) =~= text::decimal(n));
        text::decimal_injective(m, n);
    }
}

/// Mints run ids, each with the number after the one before.
#[derive(Debug, PartialEq)]
pub struct RunIdMinter {
    pub next: u64,
}

impl RunIdMinter {
    /// A minter that starts at 0.
    pub fn new() -> (r: Self)
        ensures
            r.next == 0,
    {
        RunIdMinter { next: 0 }
    }

    /// A minter that starts at `start`.
    pub fn with_start(start: u64) -> (r: Self)
        ensures
            r.next == start,
    {
        RunIdMinter { next: start }
    }

    /// The next id. After the largest number comes 0.
    pub fn mint(&mut self) -> (r: String)
        ensures
            r@ == run_id(old(self).next as nat),
            final(self).next == if old(self).next < u64::MAX {
                (old(self).next + 1) as u64
            } else {
                0
            },
    {
        let id: u64 = self.next;
        self.next = if id < u64::MAX {
            id + 1
        } else {
            0
        };
        text::concat2("run-", &text::decimal_u64(id))
    }
}

impl Default for RunIdMinter {
    fn default() -> (r: Self)
        ensures
            r.next == 0,
    {
        RunIdMinter::new()
    }
}

/// Ids are `run-` and a number; the number is what follows the prefix, where that is a number of at
/// most 64 bits. A minter counts on, and starts again after the largest number.
pub proof fn ids_are_numbers(
    before: RunIdMinter,
    after: RunIdMinter,
    id: String,
    fresh: RunIdMinter,
    start: u64,
    set: RunIdMinter,
    prefix: &str,
    minted: &str,
    n: Option<u64>,
)
    requires
        exists|t: &mut RunIdMinter|
            #![trigger call_ensures(RunIdMinter::mint, (t,), id)]
            *t == before && *final(t) == after && call_ensures(RunIdMinter::mint, (t,), id),
        call_ensures(RunIdMinter::new, (), fresh),
        call_ensures(RunIdMinter::with_start, (start,), set),
        prefix@ == "run-"@,
        minted@ == id@,
        call_ensures(number_in, (prefix, minted), n),
    ensures
        id@ == "run-"@ + text::decimal(before.next as nat),
        before.next < u64::MAX ==> after.next == before.next + 1,
        before.next == u64::MAX ==> after.next == 0,
        fresh.next == 0,
        set.next == start,
        n == Some(before.next),
{
    number_read_back("run-"@, before.next as nat);
}

/// An id without the prefix has no number, and neither has one in which something else follows.
pub proof fn other_ids_have_no_number(prefix: Seq<char>, id: Seq<char>)
    ensures
        !text::has_prefix(id, prefix) ==> numbered(prefix, id) is None,
        text::has_prefix(id, prefix) ==> numbered(prefix, id) == text::unsigned_value(
            id.skip(prefix.len() as int),
            0xffff_ffff_ffff_ffff,
        ),
        run_number(id) == numbered("run-"@, id),
{
}

} // verus!
