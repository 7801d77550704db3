//! The limits of the router, and how scores are held against them.
//!
//! A score is a single-precision number. It is carried as the bits of that number, and compared by
//! them as the number is.

use vstd::prelude::*;

verus! {

/// The seconds that a call to Ollama may take.
pub const OLLAMA_TIMEOUT_SECS: u64 = 10;

/// The bits of 0.6, the score that a workflow has to reach to be matched.
pub const MATCH_THRESHOLD: u32 = 0x3f19_999a;

/// The bits of 0.7, the score that a workflow has to reach to be matched where a match has to be
/// confirmed.
pub const CONFIRM_REQUIRED_MATCH_THRESHOLD: u32 = 0x3f33_3333;

/// The most characters that an utterance may have.
pub const MAX_UTTERANCE_CHARS: usize = 1000;

/// Whether the bits are those of a number, be it infinite.
pub open spec fn is_number(bits: u32) -> bool {
    bits % 0x8000_0000 <= 0x7f80_0000
}

/// The place of a number in the order of numbers: both zeros have the same.
pub open spec fn place(bits: u32) -> int {
    if bits < 0x8000_0000 {
        bits as int
    } else {
        0x8000_0000 - bits
    }
}

/// Whether the number `a` is above the number `b`. What is no number is above nothing, and nothing
/// is above it.
pub open spec fn is_above(a: u32, b: u32) -> bool {
    is_number(a) && is_number(b) && place(a) > place(b)
}

/// Whether the number `a` is above the number `b` or equal to it.
pub open spec fn reaches(a: u32, b: u32) -> bool {
    is_number(a) && is_number(b) && place(a) >= place(b)
}

fn number(bits: u32) -> (r: bool)
    ensures
        r == is_number(bits),
{
    bits % 0x8000_0000 <= 0x7f80_0000
}

fn place_of(bits: u32) -> (r: i64)
    ensures
        r == place(bits),
{
    if bits < 0x8000_0000 {
        bits as i64
    } else {
        0x8000_0000i64 - bits as i64
    }
}

/// Whether the number `a` is above the number `b`.
pub fn above(a: u32, b: u32) -> (r: bool)
    ensures
        r == is_above(a, b),
{
    number(a) && number(b) && place_of(a) > place_of(b)
}

/// Whether a score is enough: one that equals what is required is.
pub fn clears_threshold(score: u32, required: u32) -> (r: bool)
    ensures
        r == reaches(score, required),
{
    number(score) && number(required) && place_of(score) >= place_of(required)
}

/// The stricter of the two limits is the one where a match has to be confirmed.
pub proof fn confirmation_is_never_laxer(score: u32)
    ensures
        reaches(CONFIRM_REQUIRED_MATCH_THRESHOLD, MATCH_THRESHOLD),
        reaches(score, CONFIRM_REQUIRED_MATCH_THRESHOLD) ==> reaches(score, MATCH_THRESHOLD),
{
}

/// The scores, among which some may be missing, that are the best: the first of those that no
/// other is above.
pub open spec fn is_best(scores: Seq<Option<u32>>, at: int) -> bool {
    &&& 0 <= at < scores.len()
    &&& scores[at] is Some
    &&& forall|j: int|
        0 <= j < scores.len() && (#[trigger] scores[j]) is Some ==> place(scores[j]->0) <= place(scores[at]->0)
    &&& forall|j: int| 0 <= j < at && (#[trigger] scores[j]) is Some ==> place(scores[j]->0) < place(scores[at]->0)
}

/// All scores that there are, are numbers.
pub open spec fn all_numbers(scores: Seq<Option<u32>>) -> bool {
    forall|j: int| 0 <= j < scores.len() && (#[trigger] scores[j]) is Some ==> is_number(scores[j]->0)
}

/// Only one score is the best.
pub proof fn best_is_one(scores: Seq<Option<u32>>, a: int, b: int)
    requires
        is_best(scores, a),
        is_best(scores, b),
    ensures
        a == b,
{
    if a < b {
        assert(place(scores[a]->0) < place(scores[b]->0));
    } else if b < a {
        assert(place(scores[b]->0) < place(scores[a]->0));
    }
}

/// The place of the best score: of equal ones the first.
pub fn best_index(scores: &Vec<Option<u32>>) -> (r: Option<usize>)
    requires
        all_numbers(scores@),
    ensures
        match r {
            Some(at) => is_best(scores@, at as int),
            None => forall|j: int| 0 <= j < scores@.len() ==> (#[trigger] scores@[j]) is None,
        },
{
    let mut best: Option<usize> = None;
    let mut i: usize = 0;
    assert(scores@.take(0) =~= Seq::<Option<u32>>::empty());
    while i < scores.len()
        invariant
            i <= scores@.len(),
            all_numbers(scores@),
            match best {
                Some(at) => at < i && is_best(scores@.take(i as int), at as int),
                None => forall|j: int| 0 <= j < i ==> (#[trigger] scores@[j]) is None,
            },
        decreases scores@.len() - i,
    {
        let ghost before = scores@.take(i as int);
        let ghost after = scores@.take(i + 1);
        assert(after =~= before.push(scores@[i as int]));
        if let Some(score) = scores[i] {
            let better = match best {
                Some(at) => match scores[at] {
                    Some(so_far) => above(score, so_far),
                    None => true,
                },
                None => true,
            };
            if better {
                best = Some(i);
                proof {
                    assert forall|j: int| 0 <= j < i && (#[trigger] after[j]) is Some implies place(after[j]->0)
                        < place(score) by {
                        assert(before[j] == after[j]);
                        assert(scores@[j] == after[j]);
                    }
                    assert(is_best(after, i as int));
                }
            } else {
                proof {
                    let at = best->0 as int;
                    assert(before[at] == scores@[at]);
                    assert(is_number(scores@[at]->0));
                    assert forall|j: int| 0 <= j < after.len() && (#[trigger] after[j]) is Some implies place(
                        after[j]->0,
                    ) <= place(after[at]->0) by {
                        if j < i {
                            assert(before[j] == after[j]);
                        }
                    }
                    assert forall|j: int| 0 <= j < at && (#[trigger] after[j]) is Some implies place(after[j]->0)
                        < place(after[at]->0) by {
                        assert(before[j] == after[j]);
                    }
                }
            }
        } else {
            proof {
                if best is Some {
                    let at = best->0 as int;
                    assert(before[at] == after[at]);
                    assert forall|j: int| 0 <= j < after.len() && (#[trigger] after[j]) is Some implies place(
                        after[j]->0,
                    ) <= place(after[at]->0) by {
                        assert(j < i);
                        assert(before[j] == after[j]);
                    }
                    assert forall|j: int| 0 <= j < at && (#[trigger] after[j]) is Some implies place(after[j]->0)
                        < place(after[at]->0) by {
                        assert(before[j] == after[j]);
                    }
                }
            }
        }
        i = i + 1;
    }
    assert(scores@.take(scores@.len() as int) =~= scores@);
    best
}

/// The bits are those of a number: one without a sign up to the infinite one, or one with it.
pub proof fn numbers_by_their_bits(bits: u32)
    ensures
        is_number(bits) <==> bits <= 0x7f80_0000 || 0x8000_0000 <= bits <= 0xff80_0000,
{
}

/// Scores compare as the numbers do whose bits they are. Without a sign the larger bits are the
/// larger number, with a sign the smaller; a number with a sign is below one without, but for the two
/// zeros, which are equal; and what is no number compares with nothing.
pub proof fn scores_compare_as_numbers(a: u32, b: u32)
    ensures
        a <= 0x7f80_0000 && b <= 0x7f80_0000 ==> (reaches(a, b) <==> a >= b) && (is_above(a, b) <==> a > b),
        0x8000_0000 <= a <= 0xff80_0000 && 0x8000_0000 <= b <= 0xff80_0000 ==> (reaches(a, b) <==> a <= b) && (is_above(
            a,
            b,
        ) <==> a < b),
        a <= 0x7f80_0000 && 0x8000_0000 <= b <= 0xff80_0000 ==> reaches(a, b) && !is_above(b, a) && (is_above(a, b)
            <==> !(a == 0 && b == 0x8000_0000)) && (reaches(b, a) <==> a == 0 && b == 0x8000_0000),
        0x7f80_0000 < a < 0x8000_0000 || a > 0xff80_0000 ==> !reaches(a, b) && !reaches(b, a) && !is_above(a, b)
            && !is_above(b, a),
{
}

/// The best score is one that there is, that reaches every other, and that is above each before it.
pub proof fn the_best_is_beaten_by_none(scores: Seq<Option<u32>>, at: int)
    requires
        all_numbers(scores),
    ensures
        is_best(scores, at) <==> {
            &&& 0 <= at < scores.len()
            &&& scores[at] is Some
            &&& forall|j: int|
                0 <= j < scores.len() ==> ((#[trigger] scores[j]) matches Some(other) ==> reaches(scores[at]->0, other))
            &&& forall|j: int|
                0 <= j < at ==> ((#[trigger] scores[j]) matches Some(other) ==> is_above(scores[at]->0, other))
        },
{
    if is_best(scores, at) {
        assert forall|j: int| 0 <= j < scores.len() implies ((#[trigger] scores[j]) matches Some(other) ==> reaches(
            scores[at]->0,
            other,
        )) by {}
        assert forall|j: int| 0 <= j < at implies ((#[trigger] scores[j]) matches Some(other) ==> is_above(
            scores[at]->0,
            other,
        )) by {}
    }
}

/// Where there is a score, one is the best.
pub proof fn some_score_is_best(scores: Seq<Option<u32>>, i: int)
    requires
        0 <= i < scores.len(),
        scores[i] is Some,
    ensures
        exists|at: int| is_best(scores, at),
    decreases scores.len(),
{
    let rest = scores.drop_last();
    let last = scores.len() - 1;
    if exists|j: int| 0 <= j < last && (#[trigger] scores[j]) is Some {
        let j = choose|j: int| 0 <= j < last && (#[trigger] scores[j]) is Some;
        assert(rest[j] is Some);
        some_score_is_best(rest, j);
        let at = choose|at: int| is_best(rest, at);
        assert(rest[at] == scores[at]);
        let next = if scores[last] is Some && place(scores[last]->0) > place(scores[at]->0) {
            last
        } else {
            at
        };
        assert forall|j: int| 0 <= j < scores.len() && (#[trigger] scores[j]) is Some implies place(scores[j]->0)
            <= place(scores[next]->0) by {
            if j < last {
                assert(rest[j] == scores[j]);
            }
        }
        assert forall|j: int| 0 <= j < next && (#[trigger] scores[j]) is Some implies place(scores[j]->0) < place(
            scores[next]->0,
        ) by {
            assert(rest[j] == scores[j]);
        }
        assert(is_best(scores, next));
    } else {
        assert(i == last);
        assert(is_best(scores, last));
    }
}

} // verus!
