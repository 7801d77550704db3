//! The ids of sessions. One is minted for each connection, and never taken from a client.

use vstd::prelude::*;

use crate::text;

verus! {

/// The `n`-th session id.
pub open spec fn session_id(n: nat) -> Seq<char> {
    "sess-"@ + text::decimal(n)
}

/// The number after `n`: after the largest comes 0.
pub open spec fn number_after(n: u64) -> u64 {
    if n < u64::MAX {
        (n + 1) as u64
    } else {
        0
    }
}

/// Counts on, and gives the number before that.
pub fn count_on(counter: &mut u64) -> (r: u64)
    ensures
        r == *old(counter),
        *final(counter) == number_after(*old(counter)),
{
    let n: u64 = *counter;
    *counter = if n < u64::MAX {
        n + 1
    } else {
        0
    };
    n
}

/// Two session ids with different numbers are different.
pub proof fn session_ids_are_distinct(m: nat, n: nat)
    requires
        m != n,
    ensures
        session_id(m) != session_id(n),
{
    if session_id(m) == session_id(n) {
        let k = "sess-"@.len() as int;
        assert(session_id(m).skip(k) =~= text::decimal(m));
        assert(session_id(n).skip(k) =~= text::decimal(n));
        text::decimal_injective(m, n);
    }
}

/// Mints session ids, each with the number after the one before.
#[derive(Debug, PartialEq)]
pub struct SessionIdMinter {
    pub next: u64,
}

impl SessionIdMinter {
    /// A minter that starts at 0.
    pub fn new() -> (r: Self)
        ensures
            r.next == 0,
    {
        SessionIdMinter { next: 0 }
    }

    /// The next id.
    pub fn mint(&mut self) -> (r: String)
        ensures
            r@ == session_id(old(self).next as nat),
            final(self).next == number_after(old(self).next),
    {
        let mut next: u64 = self.next;
        let id = next_session_id(&mut next);
        self.next = next;
        id
    }
}

impl Default for SessionIdMinter {
    fn default() -> (r: Self)
        ensures
            r.next == 0,
    {
        SessionIdMinter::new()
    }
}

/// The id of the next session, by the counter of the sessions there were.
pub fn next_session_id(counter: &mut u64) -> (r: String)
    ensures
        r@ == session_id(*old(counter) as nat),
        *final(counter) == number_after(*old(counter)),
{
    let n = count_on(counter);
    text::concat2("sess-", &text::decimal_u64(n))
}

/// Sessions are numbered from nothing on, each by the number after the one before; after the largest
/// number they start again.
pub proof fn sessions_are_numbered(
    fresh: SessionIdMinter,
    before: SessionIdMinter,
    after: SessionIdMinter,
    id: String,
    b: u64,
    a: u64,
    n: u64,
    c: u64,
    d: u64,
    sid: String,
)
    requires
        call_ensures(SessionIdMinter::new, (), fresh),
        exists|t: &mut SessionIdMinter|
            #![trigger call_ensures(SessionIdMinter::mint, (t,), id)]
            *t == before && *final(t) == after && call_ensures(SessionIdMinter::mint, (t,), id),
        exists|t: &mut u64|
            #![trigger call_ensures(count_on, (t,), n)]
            *t == b && *final(t) == a && call_ensures(count_on, (t,), n),
        exists|t: &mut u64|
            #![trigger call_ensures(next_session_id, (t,), sid)]
            *t == c && *final(t) == d && call_ensures(next_session_id, (t,), sid),
    ensures
        fresh.next == 0,
        id@ == "sess-"@ + text::decimal(before.next as nat),
        before.next < u64::MAX ==> after.next == before.next + 1,
        before.next == u64::MAX ==> after.next == 0,
        n == b,
        b < u64::MAX ==> a == b + 1,
        b == u64::MAX ==> a == 0,
        sid@ == "sess-"@ + text::decimal(c as nat),
        c < u64::MAX ==> d == c + 1,
        c == u64::MAX ==> d == 0,
{
}

} // verus!
