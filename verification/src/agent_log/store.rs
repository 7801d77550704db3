//! The log of agent runs: one file for each day.

use vstd::prelude::*;

use crate::definition;
use crate::json::{Json, JsonNumber, JsonView, NumberView};
use crate::paths;
use crate::rotation;
use crate::text;
use crate::wire;

verus! {

/// Where the FNV-1a hash starts.
pub const FNV_OFFSET_BASIS: u64 = 0xcbf2_9ce4_8422_2325;

/// What the FNV-1a hash multiplies by.
pub const FNV_PRIME: u64 = 0x0000_0100_0000_01b3;

/// A step of an agent run. `Interrupted` is never written: it is what a start without an end is
/// read as.
#[derive(Debug, Clone, Copy, PartialEq, Eq, Structural)]
pub enum AgentRunPhase {
    Started,
    Completed,
    Failed,
    Interrupted,
}

/// A step of an agent run as it is kept. Of the prompt only the digest and the length are.
#[derive(Debug, PartialEq)]
pub struct AgentRunRecord {
    pub run_id: String,
    pub workflow_id: String,
    pub phase: AgentRunPhase,
    pub at_ms: u64,
    pub claude_version: Option<String>,
    pub model: Option<String>,
    pub max_budget_usd: Option<JsonNumber>,
    pub scratch_dir: Option<String>,
    /// Relative paths.
    pub staged_files: Vec<String>,
    pub prompt_digest: String,
    pub prompt_bytes: usize,
    pub params: Option<Json>,
    pub envelope: Option<Json>,
    pub detail: Option<String>,
}

#[verifier::ext_equal]
pub struct RunRecordView {
    pub run_id: Seq<char>,
    pub workflow_id: Seq<char>,
    pub phase: AgentRunPhase,
    pub at_ms: u64,
    pub claude_version: Option<Seq<char>>,
    pub model: Option<Seq<char>>,
    pub max_budget_usd: Option<NumberView>,
    pub scratch_dir: Option<Seq<char>>,
    pub staged_files: Seq<Seq<char>>,
    pub prompt_digest: Seq<char>,
    pub prompt_bytes: usize,
    pub params: Option<JsonView>,
    pub envelope: Option<JsonView>,
    pub detail: Option<Seq<char>>,
}

/// What an optional number says.
pub open spec fn optional_number(n: Option<JsonNumber>) -> Option<NumberView> {
    match n {
        Some(n) => Some(n@),
        None => None,
    }
}

impl View for AgentRunRecord {
    type V = RunRecordView;

    open spec fn view(&self) -> RunRecordView {
        RunRecordView {
            run_id: self.run_id@,
            workflow_id: self.workflow_id@,
            phase: self.phase,
            at_ms: self.at_ms,
            claude_version: definition::optional_text(self.claude_version),
            model: definition::optional_text(self.model),
            max_budget_usd: optional_number(self.max_budget_usd),
            scratch_dir: definition::optional_text(self.scratch_dir),
            staged_files: text::texts(self.staged_files@),
            prompt_digest: self.prompt_digest@,
            prompt_bytes: self.prompt_bytes,
            params: wire::optional_json(self.params),
            envelope: wire::optional_json(self.envelope),
            detail: definition::optional_text(self.detail),
        }
    }
}

// ---------------------------------------------------------------------------
// The digest of a prompt

/// A step of the FNV-1a hash.
pub open spec fn fnv_step(h: u64, byte: u8) -> u64 {
    (((h ^ (byte as u64)) * FNV_PRIME) % 0x1_0000_0000_0000_0000) as u64
}

/// The 64-bit FNV-1a hash of the bytes.
pub open spec fn fnv(bytes: Seq<u8>) -> u64
    decreases bytes.len(),
{
    if bytes.len() == 0 {
        FNV_OFFSET_BASIS
    } else {
        fnv_step(fnv(bytes.drop_last()), bytes.last())
    }
}

/// The hexadecimal digit with the value `n`.
pub open spec fn hex_digit(n: nat) -> char {
    if n < 10 {
        (48 + n) as char
    } else {
        (87 + n) as char
    }
}

/// The last `width` hexadecimal digits of `n`.
pub open spec fn hex(n: nat, width: nat) -> Seq<char>
    decreases width,
{
    if width == 0 {
        Seq::empty()
    } else {
        hex(n / 16, (width - 1) as nat).push(hex_digit(n % 16))
    }
}

/// The digest of the bytes: their FNV-1a hash in hexadecimal.
pub open spec fn digest(bytes: Seq<u8>) -> Seq<char> {
    hex(fnv(bytes) as nat, 16)
}

fn hex_char(n: u64) -> (r: char)
    requires
        n < 16,
    ensures
        r == hex_digit(n as nat),
{
    if n < 10 {
        (48u8 + n as u8) as char
    } else {
        (87u8 + n as u8) as char
    }
}

fn hex_text(n: u64, width: u64) -> (r: String)
    ensures
        r@ == hex(n as nat, width as nat),
    decreases width,
{
    if width == 0 {
        String::new()
    } else {
        let mut out = hex_text(n / 16, width - 1);
        out.push(hex_char(n % 16));
        out
    }
}

/// The digest of the bytes of a prompt.
pub fn prompt_digest(bytes: &[u8]) -> (r: String)
    ensures
        r@ == digest(bytes@),
{
    let mut hash: u64 = FNV_OFFSET_BASIS;
    let mut i: usize = 0;
    assert(bytes@.take(0) =~= Seq::<u8>::empty());
    while i < bytes.len()
        invariant
            i <= bytes@.len(),
            hash == fnv(bytes@.take(i as int)),
        decreases bytes@.len() - i,
    {
        let byte: u8 = bytes[i];
        proof {
            let t = bytes@.take(i + 1);
            assert(t.drop_last() =~= bytes@.take(i as int));
            assert(t.last() == byte);
        }
        let mixed: u64 = hash ^ (byte as u64);
        hash = mixed.wrapping_mul(FNV_PRIME);
        i = i + 1;
    }
    assert(bytes@.take(bytes@.len() as int) =~= bytes@);
    hex_text(hash, 16)
}

proof fn prime_times(x: u64, y: u64)
    requires
        (x * FNV_PRIME) % 0x1_0000_0000_0000_0000 == (y * FNV_PRIME) % 0x1_0000_0000_0000_0000,
    ensures
        x == y,
{
    prime_undone(x);
    prime_undone(y);
}

/// Multiplying by the inverse of the prime takes the multiplication by the prime back.
proof fn prime_undone(x: u64)
    ensures
        (((x * FNV_PRIME) % 0x1_0000_0000_0000_0000) * 0xce96_5057_aff6_957b) % 0x1_0000_0000_0000_0000 == x,
{
    let m: int = 0x1_0000_0000_0000_0000;
    let inv: int = 0xce96_5057_aff6_957b;
    let p: int = FNV_PRIME as int;
    vstd::arithmetic::div_mod::lemma_mul_mod_noop_left(x * p, inv, m);
    assert((x * p) * inv == x * (p * inv)) by (nonlinear_arith);
    assert(p * inv == 1 + 887285111055int * m);
    assert(x * (1 + 887285111055int * m) == (x * 887285111055int) * m + x) by (nonlinear_arith);
    vstd::arithmetic::div_mod::lemma_mod_multiples_vanish(x * 887285111055int, x as int, m);
    assert(m * (x * 887285111055int) + x == (x * 887285111055int) * m + x) by (nonlinear_arith);
    vstd::arithmetic::div_mod::lemma_small_mod(x as nat, m as nat);
}

proof fn step_keeps_apart(h1: u64, h2: u64, b1: u8, b2: u8)
    requires
        h1 != h2 && b1 == b2 || h1 == h2 && b1 != b2,
    ensures
        fnv_step(h1, b1) != fnv_step(h2, b2),
{
    let w1: u64 = b1 as u64;
    let w2: u64 = b2 as u64;
    assert(h1 != h2 ==> h1 ^ w1 != h2 ^ w1) by (bit_vector);
    assert(w1 != w2 ==> h1 ^ w1 != h1 ^ w2) by (bit_vector);
    if fnv_step(h1, b1) == fnv_step(h2, b2) {
        prime_times(h1 ^ w1, h2 ^ w2);
    }
}

proof fn hash_keeps_apart(a: Seq<u8>, b: Seq<u8>, at: int)
    requires
        a.len() == b.len(),
        0 <= at < a.len(),
        a[at] != b[at],
        forall|i: int| 0 <= i < a.len() && i != at ==> a[i] == b[i],
    ensures
        fnv(a) != fnv(b),
    decreases a.len(),
{
    if at == a.len() - 1 {
        assert(a.drop_last() =~= b.drop_last());
    } else {
        hash_keeps_apart(a.drop_last(), b.drop_last(), at);
    }
    step_keeps_apart(fnv(a.drop_last()), fnv(b.drop_last()), a.last(), b.last());
}

proof fn hex_keeps_apart(m: nat, n: nat, width: nat, bound: nat)
    requires
        hex(m, width) == hex(n, width),
        m < bound,
        n < bound,
        bound == vstd::arithmetic::power::pow(16, width),
    ensures
        m == n,
    decreases width,
{
    if width > 0 {
        let smaller = vstd::arithmetic::power::pow(16, (width - 1) as nat);
        reveal(vstd::arithmetic::power::pow);
        assert(bound == 16 * smaller);
        let a = hex(m, width);
        let b = hex(n, width);
        assert(a.drop_last() =~= hex(m / 16, (width - 1) as nat));
        assert(b.drop_last() =~= hex(n / 16, (width - 1) as nat));
        assert(a.last() == hex_digit(m % 16));
        assert(b.last() == hex_digit(n % 16));
        hex_keeps_apart(m / 16, n / 16, (width - 1) as nat, smaller as nat);
    } else {
        reveal(vstd::arithmetic::power::pow);
    }
}

/// A difference in one byte, wherever it is, changes the digest.
pub proof fn one_byte_changes_the_digest(a: Seq<u8>, b: Seq<u8>, at: int)
    requires
        a.len() == b.len(),
        0 <= at < a.len(),
        a[at] != b[at],
        forall|i: int| 0 <= i < a.len() && i != at ==> a[i] == b[i],
    ensures
        digest(a) != digest(b),
{
    hash_keeps_apart(a, b, at);
    assert(vstd::arithmetic::power::pow(16, 16) == 0x1_0000_0000_0000_0000) by {
        reveal_with_fuel(vstd::arithmetic::power::pow, 17);
    }
    if digest(a) == digest(b) {
        hex_keeps_apart(fnv(a) as nat, fnv(b) as nat, 16, 0x1_0000_0000_0000_0000);
    }
}

// ---------------------------------------------------------------------------
// The files

/// What the names of the files start with.
pub const STEM: &'static str = "agent-runs";

/// The path of the file of a day.
pub fn file_path_for(dir: &str, date: &str) -> (r: String)
    ensures
        r@ == paths::joined(dir@, rotation::file_name("agent-runs"@, date@)),
{
    rotation::file_path_for(STEM, dir, date)
}

/// The day of a file of the log; none where the file is not one.
pub fn parse_date_from_filename(name: &str) -> (r: Option<i64>)
    requires
        rotation::name_is_countable("agent-runs"@, name@),
    ensures
        match r {
            Some(day) => rotation::day_of_name("agent-runs"@, name@) == Some(day as int),
            None => rotation::day_of_name("agent-runs"@, name@) is None,
        },
{
    rotation::parse_date_from_filename(STEM, name)
}

/// The digest is sixteen hexadecimal digits of the 64-bit FNV-1a hash, the highest first: the hash
/// starts at the offset basis, and each byte is mixed in and multiplied by the prime.
pub proof fn digests_are_fnv(b: Seq<u8>, byte: u8, n: nat, width: nat)
    ensures
        fnv(Seq::empty()) == 0xcbf2_9ce4_8422_2325,
        fnv(b.push(byte)) == ((fnv(b) ^ (byte as u64)) * 0x100_0000_01b3) % 0x1_0000_0000_0000_0000,
        digest(b) == hex(fnv(b) as nat, 16),
        hex(n, 0).len() == 0,
        hex(n, width + 1).drop_last() == hex(n / 16, width),
        n % 16 < 10 ==> hex(n, width + 1).last() as int == '0' as int + n % 16,
        n % 16 >= 10 ==> hex(n, width + 1).last() as int == 'a' as int + (n % 16 - 10),
{
    assert(b.push(byte).drop_last() =~= b);
    assert(hex(n, width + 1).drop_last() =~= hex(n / 16, width));
}

/// The digest of a prompt is that of its bytes, and files are named by their stem and day.
pub proof fn prompts_are_digested(bytes: &[u8], r: String, dir: &str, date: &str, p: String)
    requires
        call_ensures(prompt_digest, (bytes,), r),
        call_ensures(file_path_for, (dir, date), p),
    ensures
        r@ == digest(bytes@),
        p@ == paths::joined(dir@, "agent-runs"@ + "-"@ + date@ + ".jsonl"@),
{
}

/// Two records that look the same are the same in every field.
pub proof fn records_are_seen_whole(a: AgentRunRecord, b: AgentRunRecord)
    requires
        a@ == b@,
    ensures
        a.run_id@ == b.run_id@,
        a.workflow_id@ == b.workflow_id@,
        a.phase == b.phase,
        a.at_ms == b.at_ms,
        definition::same_optional(a.claude_version, b.claude_version),
        definition::same_optional(a.model, b.model),
        optional_number(a.max_budget_usd) == optional_number(b.max_budget_usd),
        a.max_budget_usd is Some <==> b.max_budget_usd is Some,
        a.max_budget_usd is Some ==> a.max_budget_usd->0@ == b.max_budget_usd->0@,
        definition::same_optional(a.scratch_dir, b.scratch_dir),
        text::texts(a.staged_files@) == text::texts(b.staged_files@),
        a.prompt_digest@ == b.prompt_digest@,
        a.prompt_bytes == b.prompt_bytes,
        wire::same_json(a.params, b.params),
        wire::same_json(a.envelope, b.envelope),
        definition::same_optional(a.detail, b.detail),
{
}

} // verus!
