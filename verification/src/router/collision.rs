//! Whether the intent of a new workflow is too close to that of one that there is.

use vstd::prelude::*;

use crate::router::cache;
use crate::router::threshold;

verus! {

/// The workflow that a new intent collides with, and the bits of how close the two are.
#[derive(Debug, Clone, PartialEq)]
pub struct IntentCollision {
    pub workflow_id: String,
    pub intent: String,
    pub score: u32,
}

pub struct IntentCollisionView {
    pub workflow_id: Seq<char>,
    pub intent: Seq<char>,
    pub score: u32,
}

impl View for IntentCollision {
    type V = IntentCollisionView;

    open spec fn view(&self) -> IntentCollisionView {
        IntentCollisionView { workflow_id: self.workflow_id@, intent: self.intent@, score: self.score }
    }
}

/// Two intents collide where an utterance of the one would be matched to the other.
pub const COLLISION_THRESHOLD: u32 = threshold::MATCH_THRESHOLD;

/// The candidate at `at` is the best and close enough, and the collision is with it.
pub open spec fn is_collision(
    candidates: Seq<(Seq<char>, Seq<char>)>,
    scores: Seq<Option<u32>>,
    limit: u32,
    at: int,
    c: IntentCollisionView,
) -> bool {
    &&& threshold::is_best(scores, at)
    &&& threshold::reaches(scores[at]->0, limit)
    &&& c == (IntentCollisionView {
        workflow_id: candidates[at].0,
        intent: candidates[at].1,
        score: scores[at]->0,
    })
}

/// The candidate with the best score, of equal ones the first, where that score reaches the limit.
/// A candidate without a score is passed over.
pub fn find_collision(candidates: &Vec<(String, String)>, scores: &Vec<Option<u32>>, limit: u32) -> (r: Option<
    IntentCollision,
>)
    requires
        scores@.len() == candidates@.len(),
        threshold::all_numbers(scores@),
    ensures
        match r {
            Some(c) => exists|at: int| #[trigger]
                is_collision(cache::pairs(candidates@), scores@, limit, at, c@),
            None => forall|at: int| #[trigger]
                threshold::is_best(scores@, at) ==> !threshold::reaches(scores@[at]->0, limit),
        },
{
    let best = threshold::best_index(scores);
    if let Some(at) = best {
        if let Some(score) = scores[at] {
            if threshold::clears_threshold(score, limit) {
                let c = IntentCollision {
                    workflow_id: candidates[at].0.clone(),
                    intent: candidates[at].1.clone(),
                    score,
                };
                assert(is_collision(cache::pairs(candidates@), scores@, limit, at as int, c@));
                let r = Some(c);
                assert(r->0@ == c@);
                return r;
            }
        }
    }
    assert forall|b: int| #[trigger] threshold::is_best(scores@, b) implies !threshold::reaches(
        scores@[b]->0,
        limit,
    ) by {
        assert(scores@[b] is Some);
        threshold::best_is_one(scores@, best->0 as int, b);
    }
    None
}

/// A new intent collides with the candidate that is closest to it where the two are as close as 0.6,
/// by its bits, or closer. The collision names that candidate, its intent and the score.
pub proof fn close_intents_collide(
    candidates: Seq<(Seq<char>, Seq<char>)>,
    scores: Seq<Option<u32>>,
    at: int,
    c: IntentCollisionView,
)
    requires
        threshold::all_numbers(scores),
        threshold::is_best(scores, at),
    ensures
        is_collision(candidates, scores, COLLISION_THRESHOLD, at, c) <==> {
            &&& 0x3f19_999a <= scores[at]->0 <= 0x7f80_0000
            &&& c.workflow_id == candidates[at].0
            &&& c.intent == candidates[at].1
            &&& c.score == scores[at]->0
        },
        !(0x3f19_999a <= scores[at]->0 <= 0x7f80_0000) ==> !threshold::reaches(scores[at]->0, COLLISION_THRESHOLD),
{
    threshold::scores_compare_as_numbers(scores[at]->0, 0x3f19_999a);
    threshold::scores_compare_as_numbers(0x3f19_999a, scores[at]->0);
}

/// Two collisions that look the same are the same in every field.
pub proof fn collisions_are_seen_whole(a: IntentCollision, b: IntentCollision)
    ensures
        a@ == b@ ==> a.workflow_id@ == b.workflow_id@ && a.intent@ == b.intent@ && a.score == b.score,
{
}

} // verus!
