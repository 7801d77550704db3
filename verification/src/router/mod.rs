//! From an utterance to a workflow: the workflow whose intent is closest to it, if that is close
//! enough, with the parameters that the utterance gives.
//!
//! The router asks for embeddings, for comparisons and for a generated value, and is handed what
//! came of it.

pub mod cache;
pub mod collision;
pub mod confirm_tier;
pub mod extraction;
pub mod ollama_client;
pub mod schema;
pub mod threshold;

pub use ollama_client::OLLAMA_KEEP_ALIVE;
use vstd::prelude::*;

use crate::definition::{WorkflowDefinition, WorkflowDefinitionView};
use crate::error;
use crate::error::{RouterError, RouterErrorView};
use crate::json::{Json, JsonView};
use crate::registry::Registry;
use crate::router::cache::{CacheEntryView, EmbeddingCache, SyncPlan};
use crate::router::collision::IntentCollision;
use crate::router::confirm_tier::ConfirmTier;
use crate::router::extraction::{ExtractionRequest, ExtractionRequestView};
use crate::table;
use crate::text;
use crate::wire;

verus! {

/// What became of an utterance.
#[derive(Debug, PartialEq)]
pub struct RouteOutcome {
    pub utterance: String,
    pub matched_workflow_id: Option<String>,
    /// The bits of the best score that there was.
    pub similarity_score: Option<u32>,
    /// There where a workflow was matched.
    pub confirm_tier: Option<ConfirmTier>,
    /// There where a workflow was matched and its parameters were found.
    pub extracted_params: Option<Json>,
    /// Why no workflow was matched, or why its parameters were not found.
    pub detail: Option<String>,
}

pub struct RouteOutcomeView {
    pub utterance: Seq<char>,
    pub matched_workflow_id: Option<Seq<char>>,
    pub similarity_score: Option<u32>,
    pub confirm_tier: Option<ConfirmTier>,
    pub extracted_params: Option<JsonView>,
    pub detail: Option<Seq<char>>,
}

impl View for RouteOutcome {
    type V = RouteOutcomeView;

    open spec fn view(&self) -> RouteOutcomeView {
        RouteOutcomeView {
            utterance: self.utterance@,
            matched_workflow_id: crate::definition::optional_text(self.matched_workflow_id),
            similarity_score: self.similarity_score,
            confirm_tier: self.confirm_tier,
            extracted_params: wire::optional_json(self.extracted_params),
            detail: crate::definition::optional_text(self.detail),
        }
    }
}

/// The outcome where no workflow was matched.
pub open spec fn unmatched(utterance: Seq<char>, score: Option<u32>, detail: Seq<char>) -> RouteOutcomeView {
    RouteOutcomeView {
        utterance,
        matched_workflow_id: None,
        similarity_score: score,
        confirm_tier: None,
        extracted_params: None,
        detail: Some(detail),
    }
}

fn no_match(utterance: &str, score: Option<u32>, detail: String) -> (r: RouteOutcome)
    ensures
        r@ == unmatched(utterance@, score, detail@),
{
    RouteOutcome {
        utterance: utterance.to_owned(),
        matched_workflow_id: None,
        similarity_score: score,
        confirm_tier: None,
        extracted_params: None,
        detail: Some(detail),
    }
}

// ---------------------------------------------------------------------------
// What is routed, and to what

/// Why a text is not looked at: it is blank, or it has too many characters.
pub open spec fn unfit(utterance: Seq<char>) -> Option<Seq<char>> {
    if text::is_blank(utterance) {
        Some("utterance is empty (or whitespace-only) after trimming"@)
    } else if text::trimmed(utterance).len() > threshold::MAX_UTTERANCE_CHARS {
        Some(
            "utterance is "@ + text::decimal(text::trimmed(utterance).len())
                + " Unicode code points, exceeding the 1000-code-point limit"@,
        )
    } else {
        None
    }
}

/// Why a text is not looked at. Characters are counted, not bytes, and white space around them
/// does not count.
pub fn unfit_words(utterance: &str) -> (r: Option<String>)
    ensures
        match r {
            Some(words) => unfit(utterance@) == Some(words@),
            None => unfit(utterance@) is None,
        },
{
    let trimmed = text::trim(utterance);
    proof {
        text::trimmed_of_blank(utterance@);
    }
    let n = text::chars_of(&trimmed).len();
    if n == 0 {
        return Some("utterance is empty (or whitespace-only) after trimming".to_owned());
    }
    if n > threshold::MAX_UTTERANCE_CHARS {
        return Some(
            text::concat3(
                "utterance is ",
                &text::decimal_u64(n as u64),
                " Unicode code points, exceeding the 1000-code-point limit",
            ),
        );
    }
    None
}

/// The outcome of an utterance that is not looked at.
pub fn screen(utterance: &str) -> (r: Option<RouteOutcome>)
    ensures
        match r {
            Some(o) => unfit(utterance@) is Some && o@ == unmatched(utterance@, None, unfit(utterance@)->0),
            None => unfit(utterance@) is None,
        },
{
    match unfit_words(utterance) {
        Some(words) => Some(no_match(utterance, None, words)),
        None => None,
    }
}

/// The workflows that can be matched: those with an intent.
pub open spec fn candidate_ids(registry: Map<Seq<char>, WorkflowDefinitionView>) -> Set<Seq<char>> {
    Set::new(|id: Seq<char>| registry.dom().contains(id) && !text::is_blank(registry[id].intent))
}

/// The ids and intents of the workflows that can be matched, in the order of their ids.
pub open spec fn candidates_of(registry: Map<Seq<char>, WorkflowDefinitionView>) -> Seq<(Seq<char>, Seq<char>)> {
    table::listed(candidate_ids(registry)).map_values(
        |id: Seq<char>| (id, text::trimmed(registry[id].intent)),
    )
}

/// The ids and intents of the workflows that can be matched, in the order of their ids.
pub fn candidates(registry: &Registry) -> (r: Vec<(String, String)>)
    ensures
        cache::pairs(r@) == candidates_of(registry@),
        cache::distinct_ids(cache::pairs(r@)),
        forall|i: int| 0 <= i < r@.len() ==> registry@.dom().contains((#[trigger] cache::pairs(r@)[i]).0),
        forall|i: int, j: int| 0 <= i < j < r@.len() ==> text::text_lt((#[trigger] r@[i]).0@, (#[trigger] r@[j]).0@),
        forall|i: int|
            0 <= i < r@.len() ==> {
                let (id, intent) = #[trigger] r@[i];
                &&& registry@.dom().contains(id@)
                &&& intent@ == text::trimmed(registry@[id@].intent)
                &&& intent@.len() > 0
            },
        forall|id: Seq<char>| #[trigger]
            registry@.dom().contains(id) && text::trimmed(registry@[id].intent).len() > 0 ==> exists|i: int|
                0 <= i < r@.len() && (#[trigger] r@[i]).0@ == id,
{
    let all = registry.enumerate();
    let ghost m = registry@;
    let mut out: Vec<(String, String)> = Vec::new();
    let ghost mut ids: Seq<Seq<char>> = Seq::empty();
    let mut i: usize = 0;
    let ghost pair = |id: Seq<char>| (id, text::trimmed(m[id].intent));
    assert(cache::pairs(out@) =~= ids.map_values(pair));
    while i < all.len()
        invariant
            i <= all@.len(),
            m == registry@,
            forall|a: int, b: int|
                0 <= a < b < all@.len() ==> text::text_lt(#[trigger] all@[a]@.id, #[trigger] all@[b]@.id),
            forall|a: int| 0 <= a < all@.len() ==> m.dom().contains(#[trigger] all@[a]@.id),
            forall|id: Seq<char>| #[trigger] pair(id) == (id, text::trimmed(m[id].intent)),
            cache::pairs(out@) == ids.map_values(pair),
            forall|a: int, b: int| 0 <= a < b < ids.len() ==> text::text_lt(#[trigger] ids[a], #[trigger] ids[b]),
            forall|a: int|
                0 <= a < ids.len() ==> candidate_ids(m).contains(#[trigger] ids[a]) && exists|j: int|
                    0 <= j < i && #[trigger] all@[j]@.id == ids[a],
            forall|j: int|
                0 <= j < i && candidate_ids(m).contains(#[trigger] all@[j]@.id) ==> ids.contains(all@[j]@.id),
        decreases all@.len() - i,
    {
        let ghost id0 = all@[i as int]@.id;
        let ghost ids0 = ids;
        let ghost out0 = out@;
        if let Some(def) = registry.lookup(&all[i].id) {
            let intent = text::trim(&def.intent);
            proof {
                text::trimmed_of_blank(def.intent@);
            }
            if !text::chars_of(&intent).is_empty() {
                out.push((all[i].id.clone(), intent));
                proof {
                    ids = ids0.push(id0);
                    assert(cache::pairs(out@) =~= cache::pairs(out0).push((id0, intent@)));
                    assert(ids.map_values(pair) =~= ids0.map_values(pair).push(pair(id0)));
                    assert(candidate_ids(m).contains(id0));
                }
            }
        }
        proof {
            assert forall|a: int| 0 <= a < ids.len() implies candidate_ids(m).contains(#[trigger] ids[a]) && exists|j: int|
                0 <= j < i + 1 && #[trigger] all@[j]@.id == ids[a] by {
                if a < ids0.len() {
                    assert(ids[a] == ids0[a]);
                    let j = choose|j: int| 0 <= j < i && #[trigger] all@[j]@.id == ids0[a];
                    assert(all@[j]@.id == ids[a]);
                } else {
                    assert(all@[i as int]@.id == ids[a]);
                }
            }
            assert forall|a: int, b: int| 0 <= a < b < ids.len() implies text::text_lt(
                #[trigger] ids[a],
                #[trigger] ids[b],
            ) by {
                assert(ids[a] == ids0[a]);
                if b < ids0.len() {
                    assert(ids[b] == ids0[b]);
                } else {
                    let j = choose|j: int| 0 <= j < i && #[trigger] all@[j]@.id == ids0[a];
                    assert(text::text_lt(all@[j]@.id, all@[i as int]@.id));
                }
            }
            assert forall|j: int| 0 <= j < i + 1 && candidate_ids(m).contains(#[trigger] all@[j]@.id) implies ids.contains(
                all@[j]@.id,
            ) by {
                if j < i {
                    let a = choose|a: int| 0 <= a < ids0.len() && ids0[a] == all@[j]@.id;
                    assert(ids[a] == all@[j]@.id);
                } else {
                    assert(ids[ids0.len() as int] == id0);
                }
            }
        }
        i = i + 1;
    }
    proof {
        assert forall|k: Seq<char>| #[trigger] ids.contains(k) <==> candidate_ids(m).contains(k) by {
            if candidate_ids(m).contains(k) {
                let j = choose|j: int| 0 <= j < all@.len() && #[trigger] all@[j]@.id == k;
                assert(candidate_ids(m).contains(all@[j]@.id));
            }
        }
        table::listed_is(ids, candidate_ids(m));
        assert(cache::pairs(out@) =~= candidates_of(m));
        assert forall|a: int, b: int| 0 <= a < b < cache::pairs(out@).len() implies (#[trigger] cache::pairs(
            out@,
        )[a]).0 != (#[trigger] cache::pairs(out@)[b]).0 by {
            assert(cache::pairs(out@)[a].0 == ids[a]);
            assert(cache::pairs(out@)[b].0 == ids[b]);
            text::text_lt_irreflexive(ids[a]);
        }
        assert forall|a: int| 0 <= a < out@.len() implies m.dom().contains((#[trigger] cache::pairs(out@)[a]).0) by {
            assert(cache::pairs(out@)[a].0 == ids[a]);
            assert(candidate_ids(m).contains(ids[a]));
        }
        assert forall|a: int, b: int| 0 <= a < b < out@.len() implies text::text_lt(
            (#[trigger] out@[a]).0@,
            (#[trigger] out@[b]).0@,
        ) by {
            assert(cache::pairs(out@)[a].0 == ids[a]);
            assert(cache::pairs(out@)[b].0 == ids[b]);
        }
        assert forall|a: int| 0 <= a < out@.len() implies {
            let (id, intent) = #[trigger] out@[a];
            &&& m.dom().contains(id@)
            &&& intent@ == text::trimmed(m[id@].intent)
            &&& intent@.len() > 0
        } by {
            assert(cache::pairs(out@)[a] == pair(ids[a]));
            assert(candidate_ids(m).contains(ids[a]));
            text::trimmed_of_blank(m[ids[a]].intent);
        }
        assert forall|id: Seq<char>| #[trigger] m.dom().contains(id) && text::trimmed(m[id].intent).len() > 0 implies exists|
            i: int,
        | 0 <= i < out@.len() && (#[trigger] out@[i]).0@ == id by {
            text::trimmed_of_blank(m[id].intent);
            assert(candidate_ids(m).contains(id));
            let a = choose|a: int| 0 <= a < ids.len() && ids[a] == id;
            assert(cache::pairs(out@)[a].0 == ids[a]);
            assert(out@[a].0@ == id);
        }
    }
    out
}

// ---------------------------------------------------------------------------
// Looking for the closest intent

/// What is held against the intents of the workflows.
#[derive(Debug, Clone, Copy, PartialEq, Eq, Structural)]
pub enum ProbeKind {
    Utterance,
    /// The intent of a workflow that is not there yet.
    Intent,
}

/// How far a search has come: which answer it waits for.
#[derive(Debug)]
pub enum SearchStage {
    /// The embeddings of the intents that the cache lacks.
    Corpus(SyncPlan),
    /// The embedding of the text that is searched for.
    Probe,
    /// How close that text is to each intent.
    Compare,
}

/// A search for the workflow whose intent is closest to a text.
#[derive(Debug)]
pub struct Search {
    pub probe: String,
    pub kind: ProbeKind,
    /// The ids and intents of the workflows that can be found.
    pub candidates: Vec<(String, String)>,
    pub stage: SearchStage,
}

/// What a search asks for next.
#[derive(Debug)]
pub enum SearchAsk {
    /// The embeddings of the texts, in one call.
    Embed(Vec<String>),
    /// How close the embedding is to each of the others. Where there is none, there is no score.
    Compare { probe: Vec<u32>, against: Vec<Option<Vec<u32>>> },
}

pub enum SearchAskView {
    Embed(Seq<Seq<char>>),
    Compare { probe: Seq<u32>, against: Seq<Option<Seq<u32>>> },
}

/// What an optional embedding is.
pub open spec fn optional_vector(v: Option<Vec<u32>>) -> Option<Seq<u32>> {
    match v {
        Some(e) => Some(e@),
        None => None,
    }
}

pub open spec fn optional_vectors(v: Seq<Option<Vec<u32>>>) -> Seq<Option<Seq<u32>>> {
    v.map_values(|e: Option<Vec<u32>>| optional_vector(e))
}

impl View for SearchAsk {
    type V = SearchAskView;

    open spec fn view(&self) -> SearchAskView {
        match *self {
            SearchAsk::Embed(inputs) => SearchAskView::Embed(text::texts(inputs@)),
            SearchAsk::Compare { probe, against } => SearchAskView::Compare {
                probe: probe@,
                against: optional_vectors(against@),
            },
        }
    }
}

/// A search is the same but for the answer it waits for.
pub open spec fn goes_on(before: Search, after: Search) -> bool {
    &&& after.probe@ == before.probe@
    &&& after.kind == before.kind
    &&& cache::pairs(after.candidates@) == cache::pairs(before.candidates@)
}

/// The embeddings that the cache has of the candidates' intents.
pub open spec fn embeddings_of(
    m: Map<Seq<char>, CacheEntryView>,
    candidates: Seq<(Seq<char>, Seq<char>)>,
) -> Seq<Option<Seq<u32>>> {
    candidates.map_values(
        |c: (Seq<char>, Seq<char>)|
            if m.dom().contains(c.0) {
                Some(m[c.0].embedding)
            } else {
                None
            },
    )
}

/// No embedding came of the text that is searched for.
pub open spec fn no_vector(model: Seq<char>, kind: ProbeKind) -> RouterErrorView {
    RouterErrorView::MalformedResponse {
        endpoint: cache::embed_endpoint_of(model),
        detail: match kind {
            ProbeKind::Utterance => "embed call for the utterance returned zero vectors"@,
            ProbeKind::Intent => "embed call for the probe intent returned zero vectors"@,
        },
    }
}

/// The router: the models it uses, and the embeddings it has.
pub struct Router {
    cache: EmbeddingCache,
    embed_model: String,
    extract_model: String,
}

impl Router {
    /// The embeddings that the router has.
    pub closed spec fn cached(self) -> Map<Seq<char>, CacheEntryView> {
        self.cache@
    }

    /// The model that computes embeddings.
    pub closed spec fn embeds_with(self) -> Seq<char> {
        self.embed_model@
    }

    /// The model that extracts parameters.
    pub closed spec fn extracts_with(self) -> Seq<char> {
        self.extract_model@
    }

    /// A router without embeddings.
    pub fn new(embed_model: String, extract_model: String) -> (r: Self)
        ensures
            r.cached() == Map::<Seq<char>, CacheEntryView>::empty(),
            r.embeds_with() == embed_model@,
            r.extracts_with() == extract_model@,
    {
        Router { cache: EmbeddingCache::new(), embed_model, extract_model }
    }

    pub fn embed_model(&self) -> (r: &String)
        ensures
            r@ == self.embeds_with(),
    {
        &self.embed_model
    }

    pub fn extract_model(&self) -> (r: &String)
        ensures
            r@ == self.extracts_with(),
    {
        &self.extract_model
    }

    /// Begins a search. The workflows that are gone leave the cache; the intents that it lacks are
    /// asked for in one call, and where it lacks none, the text itself is.
    pub fn begin_search(&mut self, kind: ProbeKind, probe: &str, registry: &Registry) -> (r: (Search, Vec<String>))
        ensures
            final(self).cached() == cache::kept(old(self).cached(), candidates_of(registry@)),
            final(self).embeds_with() == old(self).embeds_with(),
            final(self).extracts_with() == old(self).extracts_with(),
            r.0.probe@ == probe@,
            r.0.kind == kind,
            cache::pairs(r.0.candidates@) == candidates_of(registry@),
            ({
                let lacking = cache::missing(old(self).cached(), candidates_of(registry@));
                if lacking.len() == 0 {
                    r.0.stage is Probe && text::texts(r.1@) == seq![probe@]
                } else {
                    r.0.stage matches SearchStage::Corpus(plan) && plan.well_formed() && plan.to_embed() == lacking
                        && text::texts(r.1@) == text::texts(plan.intents@)
                }
            }),
    {
        let candidates = candidates(registry);
        let plan = self.cache.plan_sync(&candidates);
        if plan.ids.len() == 0 {
            assert(plan.to_embed().len() == 0);
            let mut ask: Vec<String> = Vec::new();
            ask.push(probe.to_owned());
            assert(text::texts(ask@) =~= seq![probe@]);
            (Search { probe: probe.to_owned(), kind, candidates, stage: SearchStage::Probe }, ask)
        } else {
            assert(plan.to_embed().len() > 0);
            let ask = text::copy_texts(&plan.intents);
            (Search { probe: probe.to_owned(), kind, candidates, stage: SearchStage::Corpus(plan) }, ask)
        }
    }

    /// The embeddings that the cache has of the candidates' intents.
    fn known_embeddings(&self, candidates: &Vec<(String, String)>) -> (r: Vec<Option<Vec<u32>>>)
        ensures
            optional_vectors(r@) == embeddings_of(self.cached(), cache::pairs(candidates@)),
    {
        let mut out: Vec<Option<Vec<u32>>> = Vec::new();
        let ghost all = embeddings_of(self.cached(), cache::pairs(candidates@));
        let mut i: usize = 0;
        assert(optional_vectors(out@) =~= all.take(0));
        while i < candidates.len()
            invariant
                i <= candidates@.len(),
                all == embeddings_of(self.cached(), cache::pairs(candidates@)),
                optional_vectors(out@) == all.take(i as int),
            decreases candidates@.len() - i,
        {
            let ghost out0 = out@;
            let known = match self.cache.lookup(&candidates[i].0) {
                Some(e) => {
                    let e: Vec<u32> = e.clone();
                    Some(e)
                },
                None => None,
            };
            assert(cache::pairs(candidates@)[i as int].0 == candidates@[i as int].0@);
            assert(optional_vector(known) == all[i as int]);
            out.push(known);
            assert(optional_vectors(out@) =~= optional_vectors(out0).push(optional_vector(known)));
            assert(all.take(i + 1) =~= all.take(i as int).push(all[i as int]));
            i = i + 1;
        }
        assert(all.take(all.len() as int) =~= all);
        out
    }

    /// Goes on with the embeddings that were asked for, or with why there are none. A search that
    /// fails here leaves the cache as it is.
    pub fn embedded(&mut self, search: Search, answer: Result<Vec<Vec<u32>>, RouterError>) -> (r: Result<
        (Search, SearchAsk),
        RouterError,
    >)
        requires
            !(search.stage is Compare),
            search.stage matches SearchStage::Corpus(plan) ==> plan.well_formed(),
        ensures
            final(self).embeds_with() == old(self).embeds_with(),
            final(self).extracts_with() == old(self).extracts_with(),
            r is Err ==> final(self).cached() == old(self).cached(),
            match (search.stage, answer) {
                (_, Err(e)) => r matches Err(f) && f@ == e@,
                (SearchStage::Corpus(plan), Ok(v)) => if v@.len() == plan.ids@.len() {
                    &&& r matches Ok((after, ask))
                    &&& goes_on(search, after)
                    &&& after.stage is Probe
                    &&& ask@ == SearchAskView::Embed(seq![search.probe@])
                    &&& final(self).cached() == cache::filled(
                        old(self).cached(),
                        plan.to_embed(),
                        cache::vectors(v@),
                    )
                } else {
                    r matches Err(e) && e@ == cache::miscounted(
                        old(self).embeds_with(),
                        plan.ids@.len(),
                        v@.len(),
                    )
                },
                (_, Ok(v)) => {
                    &&& final(self).cached() == old(self).cached()
                    &&& if v@.len() == 0 {
                        r matches Err(e) && e@ == no_vector(old(self).embeds_with(), search.kind)
                    } else {
                        &&& r matches Ok((after, ask))
                        &&& goes_on(search, after)
                        &&& after.stage is Compare
                        &&& ask@ == (SearchAskView::Compare {
                            probe: v@[0]@,
                            against: embeddings_of(old(self).cached(), cache::pairs(search.candidates@)),
                        })
                    }
                },
            },
    {
        let mut vectors = match answer {
            Ok(v) => v,
            Err(e) => return Err(e),
        };
        let Search { probe, kind, candidates, stage } = search;
        match stage {
            SearchStage::Corpus(plan) => {
                let model = self.embed_model.clone();
                match self.cache.apply_sync(plan, vectors, &model) {
                    Ok(_) => {
                        let mut ask: Vec<String> = Vec::new();
                        ask.push(probe.clone());
                        assert(text::texts(ask@) =~= seq![probe@]);
                        Ok((Search { probe, kind, candidates, stage: SearchStage::Probe }, SearchAsk::Embed(ask)))
                    },
                    Err(e) => Err(e),
                }
            },
            _ => {
                if vectors.len() == 0 {
                    let detail = match kind {
                        ProbeKind::Utterance => "embed call for the utterance returned zero vectors",
                        ProbeKind::Intent => "embed call for the probe intent returned zero vectors",
                    };
                    return Err(
                        RouterError::MalformedResponse {
                            endpoint: text::concat2(&self.embed_model, ": /api/embed"),
                            detail: detail.to_owned(),
                        },
                    );
                }
                let first = vectors.swap_remove(0);
                let against = self.known_embeddings(&candidates);
                Ok(
                    (
                        Search { probe, kind, candidates, stage: SearchStage::Compare },
                        SearchAsk::Compare { probe: first, against },
                    ),
                )
            },
        }
    }
}

// ---------------------------------------------------------------------------
// What is made of the scores

/// A score: its bits, and the number as it is written.
#[derive(Debug)]
pub struct Score {
    pub bits: u32,
    pub words: String,
}

/// The bits of the scores.
pub open spec fn bits_of(scores: Seq<Option<Score>>) -> Seq<Option<u32>> {
    scores.map_values(
        |s: Option<Score>|
            match s {
                Some(s) => Some(s.bits),
                None => None,
            },
    )
}

fn score_bits(scores: &Vec<Option<Score>>) -> (r: Vec<Option<u32>>)
    ensures
        r@ == bits_of(scores@),
{
    let mut out: Vec<Option<u32>> = Vec::new();
    let mut i: usize = 0;
    assert(out@ =~= bits_of(scores@).take(0));
    while i < scores.len()
        invariant
            i <= scores@.len(),
            out@ == bits_of(scores@).take(i as int),
        decreases scores@.len() - i,
    {
        let bits: Option<u32> = match &scores[i] {
            Some(s) => Some(s.bits),
            None => None,
        };
        out.push(bits);
        assert(bits_of(scores@).take(i + 1) =~= bits_of(scores@).take(i as int).push(bits));
        i = i + 1;
    }
    assert(bits_of(scores@).take(scores@.len() as int) =~= bits_of(scores@));
    out
}

/// The score that a workflow of the tier has to reach.
pub open spec fn required_score(tier: ConfirmTier) -> u32 {
    match tier {
        ConfirmTier::RouteFreely => threshold::MATCH_THRESHOLD,
        ConfirmTier::ConfirmRequired => threshold::CONFIRM_REQUIRED_MATCH_THRESHOLD,
    }
}

/// The same as it is written.
pub open spec fn required_words(tier: ConfirmTier) -> Seq<char> {
    match tier {
        ConfirmTier::RouteFreely => "0.6"@,
        ConfirmTier::ConfirmRequired => "0.7"@,
    }
}

/// A workflow that an utterance was matched to.
#[derive(Debug)]
pub struct Matched {
    pub utterance: String,
    pub workflow_id: String,
    pub score: u32,
    pub tier: ConfirmTier,
}

pub struct MatchedView {
    pub utterance: Seq<char>,
    pub workflow_id: Seq<char>,
    pub score: u32,
    pub tier: ConfirmTier,
}

impl View for Matched {
    type V = MatchedView;

    open spec fn view(&self) -> MatchedView {
        MatchedView {
            utterance: self.utterance@,
            workflow_id: self.workflow_id@,
            score: self.score,
            tier: self.tier,
        }
    }
}

/// The outcome where a workflow was matched, whatever was found of its parameters.
pub open spec fn matched_outcome(m: MatchedView, found: (Option<JsonView>, Option<Seq<char>>)) -> RouteOutcomeView {
    RouteOutcomeView {
        utterance: m.utterance,
        matched_workflow_id: Some(m.workflow_id),
        similarity_score: Some(m.score),
        confirm_tier: Some(m.tier),
        extracted_params: found.0,
        detail: found.1,
    }
}

/// What is said where the best workflow, which is of the tier, is not close enough.
pub open spec fn too_far(score_words: Seq<char>, tier: ConfirmTier) -> Seq<char> {
    "best observed similarity "@ + score_words + " did not clear the "@ + required_words(tier) + " match threshold"@
}

/// What is decided about the best candidate: it is matched where its score is enough for its tier.
pub open spec fn verdict(utterance: Seq<char>, def: WorkflowDefinitionView, score: u32, words: Seq<char>) -> Result<
    MatchedView,
    RouteOutcomeView,
> {
    let tier = confirm_tier::tier_of(def.service);
    if threshold::reaches(score, required_score(tier)) {
        Ok(MatchedView { utterance, workflow_id: def.id, score, tier })
    } else {
        Err(unmatched(utterance, Some(score), too_far(words, tier)))
    }
}

/// What comes after the comparison.
#[derive(Debug)]
pub enum RouteStep {
    /// Nothing: this is the outcome.
    Done(RouteOutcome),
    /// The model is asked for the parameters of the workflow that was matched.
    Extract(Matched, ExtractionRequest),
}

/// The step follows from the verdict on the workflow.
pub open spec fn is_step(
    step: RouteStep,
    utterance: Seq<char>,
    def: WorkflowDefinitionView,
    verdict: Result<MatchedView, RouteOutcomeView>,
) -> bool {
    match verdict {
        Err(o) => step matches RouteStep::Done(d) && d@ == o,
        Ok(m) => if def.parameters.dom() =~= Set::<Seq<char>>::empty() {
            step matches RouteStep::Done(d) && d@ == matched_outcome(
                m,
                (Some(JsonView::Object(Map::empty())), None),
            )
        } else {
            step matches RouteStep::Extract(n, q) && n@ == m && q@ == extraction::request_of(def, utterance)
        },
    }
}

/// What the scores say: for each its bits, and the number as it is written.
pub open spec fn scores_view(scores: Seq<Option<Score>>) -> Seq<Option<(u32, Seq<char>)>> {
    scores.map_values(
        |s: Option<Score>|
            match s {
                Some(s) => Some((s.bits, s.words@)),
                None => None,
            },
    )
}

/// The bits of the scores.
pub open spec fn score_bits_of(scores: Seq<Option<(u32, Seq<char>)>>) -> Seq<Option<u32>> {
    scores.map_values(
        |s: Option<(u32, Seq<char>)>|
            match s {
                Some((bits, _)) => Some(bits),
                None => None,
            },
    )
}

/// The best score, where there is one.
pub open spec fn best_of(bits: Seq<Option<u32>>) -> Option<int> {
    if exists|at: int| threshold::is_best(bits, at) {
        Some(choose|at: int| threshold::is_best(bits, at))
    } else {
        None
    }
}

/// What is decided about an utterance by the scores of the workflows that can be matched: the
/// workflow that it is matched to, or the outcome where it is matched to none.
pub open spec fn decision(
    utterance: Seq<char>,
    registry: Map<Seq<char>, WorkflowDefinitionView>,
    scores: Seq<Option<(u32, Seq<char>)>>,
) -> Result<(MatchedView, WorkflowDefinitionView), RouteOutcomeView> {
    match best_of(score_bits_of(scores)) {
        None => Err(unmatched(utterance, None, "no candidate workflow matched"@)),
        Some(at) => {
            let def = registry[candidates_of(registry)[at].0];
            let (bits, words) = scores[at]->0;
            match verdict(utterance, def, bits, words) {
                Ok(m) => Ok((m, def)),
                Err(o) => Err(o),
            }
        },
    }
}

/// What the model is asked in the course of a route. It is asked once, or not at all.
pub open spec fn asked(
    utterance: Seq<char>,
    registry: Map<Seq<char>, WorkflowDefinitionView>,
    scores: Seq<Option<(u32, Seq<char>)>>,
) -> Option<ExtractionRequestView> {
    if unfit(utterance) is Some {
        None
    } else {
        match decision(utterance, registry, scores) {
            Err(_) => None,
            Ok((_, def)) => if def.parameters.dom() =~= Set::<Seq<char>>::empty() {
                None
            } else {
                Some(extraction::request_of(def, utterance))
            },
        }
    }
}

/// The outcome of a whole route, where the workflows have the scores and the model answers so.
pub open spec fn route_of(
    utterance: Seq<char>,
    registry: Map<Seq<char>, WorkflowDefinitionView>,
    scores: Seq<Option<(u32, Seq<char>)>>,
    answer: Result<JsonView, RouterErrorView>,
) -> RouteOutcomeView {
    match unfit(utterance) {
        Some(words) => unmatched(utterance, None, words),
        None => match decision(utterance, registry, scores) {
            Err(o) => o,
            Ok((m, def)) => matched_outcome(
                m,
                if def.parameters.dom() =~= Set::<Seq<char>>::empty() {
                    (Some(JsonView::Object(Map::empty())), None)
                } else {
                    extraction::extraction_of(def, answer)
                },
            ),
        },
    }
}

/// The step is that of the route: its outcome where the model is not asked, and else what it is
/// asked, after which the outcome is that of the match with the answer.
pub open spec fn leads_to_route(
    step: RouteStep,
    utterance: Seq<char>,
    registry: Map<Seq<char>, WorkflowDefinitionView>,
    scores: Seq<Option<(u32, Seq<char>)>>,
) -> bool {
    match step {
        RouteStep::Done(o) => asked(utterance, registry, scores) is None && forall|answer: Result<
            JsonView,
            RouterErrorView,
        >| #[trigger] route_of(utterance, registry, scores, answer) == o@,
        RouteStep::Extract(m, q) => {
            &&& asked(utterance, registry, scores) == Some(q@)
            &&& registry.dom().contains(m@.workflow_id)
            &&& forall|answer: Result<JsonView, RouterErrorView>| #[trigger]
                route_of(utterance, registry, scores, answer) == matched_outcome(
                    m@,
                    extraction::extraction_of(registry[m@.workflow_id], answer),
                )
        },
    }
}

/// Decides by the scores of the candidates. A workflow without parameters is matched without
/// asking the model. Where the candidates are those of the registry, this is the step of the route.
pub fn decide(search: &Search, registry: &Registry, scores: &Vec<Option<Score>>) -> (r: RouteStep)
    requires
        scores@.len() == search.candidates@.len(),
        threshold::all_numbers(bits_of(scores@)),
        forall|i: int|
            0 <= i < search.candidates@.len() ==> registry@.dom().contains(
                (#[trigger] cache::pairs(search.candidates@)[i]).0,
            ),
    ensures
        forall|at: int| #[trigger]
            threshold::is_best(bits_of(scores@), at) ==> {
                let def = registry@[cache::pairs(search.candidates@)[at].0];
                is_step(
                    r,
                    search.probe@,
                    def,
                    verdict(search.probe@, def, scores@[at]->0.bits, scores@[at]->0.words@),
                )
            },
        (forall|i: int| 0 <= i < scores@.len() ==> (#[trigger] scores@[i]) is None) ==> (r matches RouteStep::Done(d)
            && d@ == unmatched(search.probe@, None, "no candidate workflow matched"@)),
        unfit(search.probe@) is None && cache::pairs(search.candidates@) == candidates_of(registry@)
            ==> leads_to_route(r, search.probe@, registry@, scores_view(scores@)),
{
    assert(score_bits_of(scores_view(scores@)) =~= bits_of(scores@));
    let bits = score_bits(scores);
    let best = threshold::best_index(&bits);
    if let Some(at) = best {
        assert(bits@[at as int] is Some);
        assert forall|b: int| #[trigger] threshold::is_best(bits_of(scores@), b) implies b == at by {
            threshold::best_is_one(bits_of(scores@), at as int, b);
        }
        if let Some(score) = &scores[at] {
            let id = &search.candidates[at].0;
            assert(cache::pairs(search.candidates@)[at as int].0 == id@);
            if let Some(def) = registry.lookup(id) {
                let step = decide_on(&search.probe, def, score);
                assert(best_of(bits_of(scores@)) == Some(at as int));
                assert(scores_view(scores@)[at as int] == Some((score.bits, score.words@)));
                return step;
            }
        }
        assert(false);
    }
    proof {
        assert forall|i: int| 0 <= i < scores@.len() implies (#[trigger] scores@[i]) is None by {
            assert(bits@[i] is None);
        }
        assert forall|b: int| !(#[trigger] threshold::is_best(bits_of(scores@), b)) by {
            if threshold::is_best(bits_of(scores@), b) {
                assert(bits@[b] is None);
            }
        }
    }
    RouteStep::Done(no_match(&search.probe, None, "no candidate workflow matched".to_owned()))
}

fn decide_on(utterance: &String, def: &WorkflowDefinition, score: &Score) -> (r: RouteStep)
    ensures
        is_step(r, utterance@, def@, verdict(utterance@, def@, score.bits, score.words@)),
{
    let tier = confirm_tier::confirm_tier(def);
    let (required, words) = match tier {
        ConfirmTier::RouteFreely => (threshold::MATCH_THRESHOLD, "0.6"),
        ConfirmTier::ConfirmRequired => (threshold::CONFIRM_REQUIRED_MATCH_THRESHOLD, "0.7"),
    };
    if !threshold::clears_threshold(score.bits, required) {
        let detail = error::words5(
            "best observed similarity ",
            &score.words,
            " did not clear the ",
            words,
            " match threshold",
        );
        return RouteStep::Done(no_match(utterance, Some(score.bits), detail));
    }
    let m = Matched { utterance: utterance.clone(), workflow_id: def.id.clone(), score: score.bits, tier };
    match extraction::extraction_request(def, utterance) {
        None => {
            let o = finish(m, (Some(extraction::no_parameters()), None));
            RouteStep::Done(o)
        },
        Some(q) => {
            assert(!(def@.parameters.dom() =~= Set::<Seq<char>>::empty())) by {
                if def@.parameters.dom() =~= Set::<Seq<char>>::empty() {
                    assert(def@.parameters =~= Map::empty());
                }
            }
            RouteStep::Extract(m, q)
        },
    }
}

fn finish(m: Matched, found: (Option<Json>, Option<String>)) -> (r: RouteOutcome)
    ensures
        r@ == matched_outcome(m@, (wire::optional_json(found.0), crate::definition::optional_text(found.1))),
{
    RouteOutcome {
        utterance: m.utterance,
        matched_workflow_id: Some(m.workflow_id),
        similarity_score: Some(m.score),
        confirm_tier: Some(m.tier),
        extracted_params: found.0,
        detail: found.1,
    }
}

/// The outcome for a matched workflow, with what the model answered.
pub fn extracted(m: Matched, def: &WorkflowDefinition, answer: Result<Json, RouterError>) -> (r: RouteOutcome)
    ensures
        r@ == matched_outcome(m@, extraction::extraction_of(def@, extraction::answer_view(answer))),
{
    finish(m, extraction::check_extraction(def, answer))
}

/// The workflow that the new intent collides with, by the scores of the candidates.
pub fn collision_among(search: &Search, scores: &Vec<Option<u32>>) -> (r: Option<IntentCollision>)
    requires
        scores@.len() == search.candidates@.len(),
        threshold::all_numbers(scores@),
    ensures
        match r {
            Some(c) => exists|at: int| #[trigger]
                collision::is_collision(
                    cache::pairs(search.candidates@),
                    scores@,
                    collision::COLLISION_THRESHOLD,
                    at,
                    c@,
                ),
            None => forall|at: int| #[trigger]
                threshold::is_best(scores@, at) ==> !threshold::reaches(
                    scores@[at]->0,
                    collision::COLLISION_THRESHOLD,
                ),
        },
{
    collision::find_collision(&search.candidates, scores, collision::COLLISION_THRESHOLD)
}

/// Whatever the model answers about the parameters, the match stands as it was decided.
pub proof fn extraction_keeps_the_match(
    m: MatchedView,
    def: WorkflowDefinitionView,
    answer: Result<JsonView, RouterErrorView>,
)
    ensures
        ({
            let o = matched_outcome(m, extraction::extraction_of(def, answer));
            &&& o.utterance == m.utterance
            &&& o.matched_workflow_id == Some(m.workflow_id)
            &&& o.similarity_score == Some(m.score)
            &&& o.confirm_tier == Some(m.tier)
            &&& o.extracted_params is None <==> o.detail is Some
        }),
{
}

/// What an utterance is matched to, by which score and in which tier, does not depend on what the
/// model answers: only the parameters and the words about them do.
pub proof fn match_does_not_depend_on_the_model(
    utterance: Seq<char>,
    registry: Map<Seq<char>, WorkflowDefinitionView>,
    scores: Seq<Option<(u32, Seq<char>)>>,
    a: Result<JsonView, RouterErrorView>,
    b: Result<JsonView, RouterErrorView>,
)
    ensures
        ({
            let (x, y) = (route_of(utterance, registry, scores, a), route_of(utterance, registry, scores, b));
            &&& x.utterance == y.utterance
            &&& x.matched_workflow_id == y.matched_workflow_id
            &&& x.similarity_score == y.similarity_score
            &&& x.confirm_tier == y.confirm_tier
        }),
{
}

/// The model is asked only where a workflow was matched that declares a parameter, and then for the
/// parameters of that workflow. Where it is not asked, its answer makes no difference.
pub proof fn model_is_asked_only_about_a_match(
    utterance: Seq<char>,
    registry: Map<Seq<char>, WorkflowDefinitionView>,
    scores: Seq<Option<(u32, Seq<char>)>>,
    a: Result<JsonView, RouterErrorView>,
    b: Result<JsonView, RouterErrorView>,
)
    ensures
        match asked(utterance, registry, scores) {
            Some(q) => {
                &&& decision(utterance, registry, scores) matches Ok((m, def)) && route_of(
                    utterance,
                    registry,
                    scores,
                    a,
                ).matched_workflow_id == Some(m.workflow_id) && m.workflow_id == def.id && def.parameters.dom()
                    != Set::<Seq<char>>::empty() && q == extraction::request_of(def, utterance)
            },
            None => route_of(utterance, registry, scores, a) == route_of(utterance, registry, scores, b),
        },
{
}

/// A refusal tells nothing of the workflow that came closest but its score and its tier: it is
/// the same for any two of which these are the same.
pub proof fn refusals_name_no_workflow(
    utterance: Seq<char>,
    a: WorkflowDefinitionView,
    b: WorkflowDefinitionView,
    score: u32,
    words: Seq<char>,
)
    requires
        confirm_tier::tier_of(a.service) == confirm_tier::tier_of(b.service),
        verdict(utterance, a, score, words) is Err,
    ensures
        verdict(utterance, a, score, words) == verdict(utterance, b, score, words),
        verdict(utterance, a, score, words)->Err_0.matched_workflow_id is None,
{
}

/// A workflow that is matched has reached the score for its tier; one that runs freely is of a
/// harmless type and has a harmless handler, and any other has reached the higher score.
pub proof fn matches_are_guarded(utterance: Seq<char>, def: WorkflowDefinitionView, score: u32, words: Seq<char>)
    requires
        verdict(utterance, def, score, words) is Ok,
    ensures
        ({
            let m = verdict(utterance, def, score, words)->Ok_0;
            &&& m.workflow_id == def.id
            &&& threshold::reaches(score, threshold::MATCH_THRESHOLD)
            &&& m.tier is RouteFreely ==> confirm_tier::is_benign(def.service.type_) && !confirm_tier::is_destructive(
                def.service.handler,
            )
            &&& !(m.tier is RouteFreely) ==> threshold::reaches(score, threshold::CONFIRM_REQUIRED_MATCH_THRESHOLD)
        }),
{
    threshold::confirmation_is_never_laxer(score);
}

/// Once the cache was brought up to date, every workflow with an intent is compared, by the
/// embedding of its present intent.
pub proof fn every_candidate_is_compared(
    m: Map<Seq<char>, CacheEntryView>,
    candidates: Seq<(Seq<char>, Seq<char>)>,
    embeddings: Seq<Seq<u32>>,
)
    requires
        cache::distinct_ids(candidates),
        embeddings.len() == cache::missing(m, candidates).len(),
    ensures
        ({
            let after = cache::filled(cache::kept(m, candidates), cache::missing(m, candidates), embeddings);
            forall|i: int|
                0 <= i < candidates.len() ==> (#[trigger] embeddings_of(after, candidates)[i]) == Some(
                    after[candidates[i].0].embedding,
                ) && after[candidates[i].0].intent == candidates[i].1
        }),
{
    cache::up_to_date_stays_so(m, candidates, embeddings);
    let after = cache::filled(cache::kept(m, candidates), cache::missing(m, candidates), embeddings);
    assert forall|i: int| 0 <= i < candidates.len() implies (#[trigger] embeddings_of(after, candidates)[i]) == Some(
        after[candidates[i].0].embedding,
    ) && after[candidates[i].0].intent == candidates[i].1 by {
        assert(cache::is_fresh(after, candidates[i]));
    }
}

/// The best candidate is matched wherever its score is enough for its tier: 0.6 where it runs freely,
/// 0.7 where it has to be confirmed, each by its bits, and up to the infinite number. The match is of
/// that workflow, with that score and that tier. Any other score is a refusal that names the score,
/// as it is written, and what it should have reached.
pub proof fn close_workflows_are_matched(utterance: Seq<char>, def: WorkflowDefinitionView, score: u32, words: Seq<char>)
    ensures
        ({
            let tier = confirm_tier::tier_of(def.service);
            let (limit, limit_words) = if tier == ConfirmTier::RouteFreely {
                (0x3f19_999au32, "0.6"@)
            } else {
                (0x3f33_3333u32, "0.7"@)
            };
            match verdict(utterance, def, score, words) {
                Ok(m) => {
                    &&& limit <= score <= 0x7f80_0000
                    &&& m.utterance == utterance
                    &&& m.workflow_id == def.id
                    &&& m.score == score
                    &&& m.tier == tier
                },
                Err(o) => {
                    &&& !(limit <= score <= 0x7f80_0000)
                    &&& o.utterance == utterance
                    &&& o.matched_workflow_id is None
                    &&& o.similarity_score == Some(score)
                    &&& o.confirm_tier is None
                    &&& o.extracted_params is None
                    &&& o.detail == Some(
                        "best observed similarity "@ + words + " did not clear the "@ + limit_words
                            + " match threshold"@,
                    )
                },
            }
        }),
{
    threshold::scores_compare_as_numbers(score, 0x3f19_999a);
    threshold::scores_compare_as_numbers(score, 0x3f33_3333);
    threshold::scores_compare_as_numbers(0x3f19_999a, score);
    threshold::scores_compare_as_numbers(0x3f33_3333, score);
}

/// A whole route goes to the candidate that no other is above and that is above all before it, where
/// its score is enough for its tier, and else to none. A workflow without parameters gets an empty
/// object for them, and the model is not asked; for any other the model is asked about that workflow,
/// and its answer, held against the parameters, is what is found.
pub proof fn the_closest_workflow_is_routed_to(
    utterance: Seq<char>,
    registry: Map<Seq<char>, WorkflowDefinitionView>,
    scores: Seq<Option<(u32, Seq<char>)>>,
    answer: Result<JsonView, RouterErrorView>,
    at: int,
    bits: u32,
    words: Seq<char>,
)
    requires
        unfit(utterance) is None,
        0 <= at < scores.len(),
        scores[at] == Some((bits, words)),
        forall|j: int|
            0 <= j < scores.len() ==> ((#[trigger] scores[j]) matches Some((other, _)) ==> threshold::reaches(
                bits,
                other,
            )),
        forall|j: int|
            0 <= j < at ==> ((#[trigger] scores[j]) matches Some((other, _)) ==> threshold::is_above(bits, other)),
    ensures
        ({
            let def = registry[candidates_of(registry)[at].0];
            let tier = confirm_tier::tier_of(def.service);
            let o = route_of(utterance, registry, scores, answer);
            let q = asked(utterance, registry, scores);
            let limit = if tier == ConfirmTier::RouteFreely {
                0x3f19_999au32
            } else {
                0x3f33_3333u32
            };
            &&& o.utterance == utterance
            &&& o.similarity_score == Some(bits)
            &&& limit <= bits <= 0x7f80_0000 ==> {
                &&& o.matched_workflow_id == Some(def.id)
                &&& o.confirm_tier == Some(tier)
                &&& def.parameters.dom() == Set::<Seq<char>>::empty() ==> q is None && o.extracted_params == Some(
                    JsonView::Object(Map::empty()),
                ) && o.detail is None
                &&& def.parameters.dom() != Set::<Seq<char>>::empty() ==> q == Some(
                    extraction::request_of(def, utterance),
                ) && o.extracted_params == extraction::extraction_of(def, answer).0 && o.detail
                    == extraction::extraction_of(def, answer).1
            }
            &&& !(limit <= bits <= 0x7f80_0000) ==> {
                &&& o.matched_workflow_id is None
                &&& o.confirm_tier is None
                &&& o.extracted_params is None
                &&& o.detail is Some
                &&& q is None
            }
        }),
{
    let all = score_bits_of(scores);
    assert(all[at] == Some(bits));
    assert forall|j: int| 0 <= j < all.len() && (#[trigger] all[j]) is Some implies threshold::is_number(all[j]->0) by {
        assert(scores[j] is Some);
    }
    assert forall|j: int| 0 <= j < all.len() implies ((#[trigger] all[j]) matches Some(other) ==> threshold::reaches(
        bits,
        other,
    )) by {
        assert(scores[j] is Some == all[j] is Some);
    }
    assert forall|j: int| 0 <= j < at implies ((#[trigger] all[j]) matches Some(other) ==> threshold::is_above(
        bits,
        other,
    )) by {
        assert(scores[j] is Some == all[j] is Some);
    }
    threshold::the_best_is_beaten_by_none(all, at);
    assert(threshold::is_best(all, at));
    let b = choose|b: int| threshold::is_best(all, b);
    threshold::best_is_one(all, at, b);
    let def = registry[candidates_of(registry)[at].0];
    close_workflows_are_matched(utterance, def, bits, words);
}

/// Where no candidate has a score, nothing is matched and the model is not asked.
pub proof fn without_scores_nothing_is_matched(
    utterance: Seq<char>,
    registry: Map<Seq<char>, WorkflowDefinitionView>,
    scores: Seq<Option<(u32, Seq<char>)>>,
    answer: Result<JsonView, RouterErrorView>,
)
    requires
        unfit(utterance) is None,
        forall|j: int| 0 <= j < scores.len() ==> (#[trigger] scores[j]) is None,
    ensures
        ({
            let o = route_of(utterance, registry, scores, answer);
            &&& o.utterance == utterance
            &&& o.matched_workflow_id is None
            &&& o.similarity_score is None
            &&& o.confirm_tier is None
            &&& o.extracted_params is None
            &&& o.detail == Some("no candidate workflow matched"@)
            &&& asked(utterance, registry, scores) is None
        }),
{
    let all = score_bits_of(scores);
    assert forall|at: int| !(#[trigger] threshold::is_best(all, at)) by {
        if threshold::is_best(all, at) {
            assert(scores[at] is None);
        }
    }
}

/// An utterance is looked at where, without the white space around it, it has at least one character
/// and at most 1000. Any other is refused with nothing looked up and nothing asked.
pub proof fn only_fit_utterances_are_looked_at(
    utterance: Seq<char>,
    registry: Map<Seq<char>, WorkflowDefinitionView>,
    scores: Seq<Option<(u32, Seq<char>)>>,
    answer: Result<JsonView, RouterErrorView>,
)
    ensures
        unfit(utterance) is None <==> 1 <= text::trimmed(utterance).len() <= 1000,
        unfit(utterance) matches Some(why) ==> {
            let o = route_of(utterance, registry, scores, answer);
            &&& o.utterance == utterance
            &&& o.matched_workflow_id is None
            &&& o.similarity_score is None
            &&& o.confirm_tier is None
            &&& o.extracted_params is None
            &&& o.detail == Some(why)
            &&& asked(utterance, registry, scores) is None
            &&& text::trimmed(utterance).len() > 0 ==> why == "utterance is "@ + text::decimal(
                text::trimmed(utterance).len(),
            ) + " Unicode code points, exceeding the 1000-code-point limit"@
            &&& text::trimmed(utterance).len() == 0 ==> why == "utterance is empty (or whitespace-only) after trimming"@
        },
{
    text::trimmed_of_blank(utterance);
}

/// A step says what the verdict says: a refusal ends the route, a match of a workflow without
/// parameters ends it with an empty object, and any other match is followed by the question for the
/// parameters of that workflow.
pub proof fn steps_say_what_was_decided(
    step: RouteStep,
    utterance: Seq<char>,
    def: WorkflowDefinitionView,
    v: Result<MatchedView, RouteOutcomeView>,
)
    requires
        is_step(step, utterance, def, v),
    ensures
        v matches Err(o) ==> (step matches RouteStep::Done(d) && d@ == o),
        v matches Ok(m) ==> {
            &&& step matches RouteStep::Done(d) ==> def.parameters.dom() == Set::<Seq<char>>::empty()
                && d@.matched_workflow_id == Some(m.workflow_id) && d@.similarity_score == Some(m.score)
                && d@.confirm_tier == Some(m.tier) && d@.utterance == m.utterance && d@.extracted_params == Some(
                JsonView::Object(Map::empty()),
            ) && d@.detail is None
            &&& step matches RouteStep::Extract(n, q) ==> def.parameters.dom() != Set::<Seq<char>>::empty() && n@ == m
                && q@ == extraction::request_of(def, utterance)
        },
{
}

/// A step that leads to the route ends it with the route's outcome, or asks what the route asks and
/// goes on to the route's outcome, of the same workflow, whatever the answer is.
pub proof fn steps_lead_to_the_outcome(
    step: RouteStep,
    utterance: Seq<char>,
    registry: Map<Seq<char>, WorkflowDefinitionView>,
    scores: Seq<Option<(u32, Seq<char>)>>,
    answer: Result<JsonView, RouterErrorView>,
)
    requires
        leads_to_route(step, utterance, registry, scores),
    ensures
        ({
            let o = route_of(utterance, registry, scores, answer);
            match step {
                RouteStep::Done(d) => d@ == o && asked(utterance, registry, scores) is None,
                RouteStep::Extract(m, q) => {
                    &&& asked(utterance, registry, scores) == Some(q@)
                    &&& registry.dom().contains(m@.workflow_id)
                    &&& o.matched_workflow_id == Some(m@.workflow_id)
                    &&& o.similarity_score == Some(m@.score)
                    &&& o.confirm_tier == Some(m@.tier)
                    &&& o.utterance == m@.utterance
                    &&& o.extracted_params == extraction::extraction_of(registry[m@.workflow_id], answer).0
                    &&& o.detail == extraction::extraction_of(registry[m@.workflow_id], answer).1
                },
            }
        }),
{
}

/// A match carries what was found of the parameters, and a refusal carries its reason and no
/// parameters.
pub proof fn outcomes_carry_what_was_found(
    m: MatchedView,
    found: (Option<JsonView>, Option<Seq<char>>),
    utterance: Seq<char>,
    score: Option<u32>,
    detail: Seq<char>,
)
    ensures
        matched_outcome(m, found).extracted_params == found.0,
        matched_outcome(m, found).detail == found.1,
        matched_outcome(m, found).matched_workflow_id == Some(m.workflow_id),
        matched_outcome(m, found).similarity_score == Some(m.score),
        matched_outcome(m, found).confirm_tier == Some(m.tier),
        matched_outcome(m, found).utterance == m.utterance,
        unmatched(utterance, score, detail).utterance == utterance,
        unmatched(utterance, score, detail).similarity_score == score,
        unmatched(utterance, score, detail).detail == Some(detail),
        unmatched(utterance, score, detail).matched_workflow_id is None,
        unmatched(utterance, score, detail).confirm_tier is None,
        unmatched(utterance, score, detail).extracted_params is None,
{
}

/// Two outcomes that look the same are the same in every field, and so are two matches.
pub proof fn outcomes_are_seen_whole(a: RouteOutcome, b: RouteOutcome, m: Matched, n: Matched)
    ensures
        a@ == b@ ==> a.utterance@ == b.utterance@ && a.similarity_score == b.similarity_score && a.confirm_tier
            == b.confirm_tier && (a.matched_workflow_id is Some <==> b.matched_workflow_id is Some) && (
        a.matched_workflow_id is Some ==> a.matched_workflow_id->0@ == b.matched_workflow_id->0@) && (
        a.extracted_params is Some <==> b.extracted_params is Some) && (a.extracted_params is Some
            ==> a.extracted_params->0@ == b.extracted_params->0@) && (a.detail is Some <==> b.detail is Some) && (
        a.detail is Some ==> a.detail->0@ == b.detail->0@),
        m@ == n@ ==> m.utterance@ == n.utterance@ && m.workflow_id@ == n.workflow_id@ && m.score == n.score && m.tier
            == n.tier,
{
}

/// What a search compares the text with is, candidate by candidate, the embedding that the cache has
/// under the candidate's id, and nothing where it has none.
pub proof fn candidates_are_compared_by_their_ids(
    m: Map<Seq<char>, CacheEntryView>,
    candidates: Seq<(Seq<char>, Seq<char>)>,
    i: int,
)
    requires
        0 <= i < candidates.len(),
    ensures
        embeddings_of(m, candidates).len() == candidates.len(),
        m.dom().contains(candidates[i].0) ==> embeddings_of(m, candidates)[i] == Some(m[candidates[i].0].embedding),
        !m.dom().contains(candidates[i].0) ==> embeddings_of(m, candidates)[i] is None,
{
}

/// Of the candidates the best is matched where its score is at least 0.6, or 0.7 where its workflow has
/// to be confirmed, whatever that workflow is; the outcome names it with its tier. Where the score is
/// lower, nothing is matched and nothing is asked.
pub proof fn the_best_is_matched_where_it_is_close(
    search: Search,
    registry: Registry,
    scores: Vec<Option<Score>>,
    r: RouteStep,
    at: int,
)
    requires
        call_ensures(decide, (&search, &registry, &scores), r),
        threshold::is_best(bits_of(scores@), at),
        scores@.len() == search.candidates@.len(),
    ensures
        ({
            let def = registry@[search.candidates@[at].0@];
            let tier = confirm_tier::tier_of(def.service);
            let bits = scores@[at]->0.bits;
            let limit = if tier == ConfirmTier::RouteFreely {
                0x3f19_999au32
            } else {
                0x3f33_3333u32
            };
            &&& limit <= bits <= 0x7f80_0000 && def.parameters.dom() == Set::<Seq<char>>::empty() ==> (
            r matches RouteStep::Done(o) && o.utterance@ == search.probe@ && (o.matched_workflow_id matches Some(id)
                && id@ == def.id) && o.similarity_score == Some(bits) && o.confirm_tier == Some(tier) && (
            o.extracted_params matches Some(j) && j@ == JsonView::Object(Map::empty())) && o.detail is None)
            &&& limit <= bits <= 0x7f80_0000 && def.parameters.dom() != Set::<Seq<char>>::empty() ==> (
            r matches RouteStep::Extract(m, q) && m.utterance@ == search.probe@ && m.workflow_id@ == def.id && m.score
                == bits && m.tier == tier && q@ == extraction::request_of(def, search.probe@))
            &&& !(limit <= bits <= 0x7f80_0000) ==> (r matches RouteStep::Done(o) && o.utterance@ == search.probe@
                && o.matched_workflow_id is None && o.similarity_score == Some(bits) && o.confirm_tier is None
                && o.extracted_params is None && o.detail is Some)
        }),
{
    let def = registry@[search.candidates@[at].0@];
    assert(cache::pairs(search.candidates@)[at].0 == search.candidates@[at].0@);
    let bits = scores@[at]->0.bits;
    let words = scores@[at]->0.words@;
    assert(bits_of(scores@)[at] == Some(bits));
    close_workflows_are_matched(search.probe@, def, bits, words);
    let v = verdict(search.probe@, def, bits, words);
    assert(is_step(r, search.probe@, def, v));
    if let RouteStep::Done(o) = r {
        assert(o@.utterance == o.utterance@);
        assert(o@.matched_workflow_id == crate::definition::optional_text(o.matched_workflow_id));
        assert(o@.extracted_params == crate::wire::optional_json(o.extracted_params));
        assert(o@.detail == crate::definition::optional_text(o.detail));
    }
}

/// Where no candidate has a score, nothing is matched, and that is said.
pub proof fn nothing_is_matched_without_scores(
    search: Search,
    registry: Registry,
    scores: Vec<Option<Score>>,
    r: RouteStep,
)
    requires
        call_ensures(decide, (&search, &registry, &scores), r),
        forall|i: int| 0 <= i < scores@.len() ==> (#[trigger] scores@[i]) is None,
    ensures
        r matches RouteStep::Done(o) && o.utterance@ == search.probe@ && o.matched_workflow_id is None
            && o.similarity_score is None && o.confirm_tier is None && o.extracted_params is None && (o.detail matches Some(
            d,
        ) && d@ == "no candidate workflow matched"@),
{
    if let RouteStep::Done(o) = r {
        assert(o@ == unmatched(search.probe@, None, "no candidate workflow matched"@));
        assert(o@.matched_workflow_id is None && o@.extracted_params is None);
        assert(o@.detail == Some("no candidate workflow matched"@));
    }
}

/// An outcome after the model was asked names the workflow that was matched before, with its score and
/// its tier, and has the parameters that were found in the answer or what was wrong with it.
pub proof fn answers_complete_the_match(
    m: Matched,
    def: WorkflowDefinition,
    answer: Result<Json, RouterError>,
    o: RouteOutcome,
)
    requires
        call_ensures(extracted, (m, &def, answer), o),
    ensures
        o.utterance@ == m.utterance@,
        o.matched_workflow_id matches Some(id) && id@ == m.workflow_id@,
        o.similarity_score == Some(m.score),
        o.confirm_tier == Some(m.tier),
        crate::wire::optional_json(o.extracted_params) == extraction::extraction_of(
            def@,
            extraction::answer_view(answer),
        ).0,
        crate::definition::optional_text(o.detail) == extraction::extraction_of(def@, extraction::answer_view(answer)).1,
{
    assert(o@.utterance == o.utterance@);
    assert(o@.matched_workflow_id == crate::definition::optional_text(o.matched_workflow_id));
}

/// An utterance that is blank, or has more than a thousand characters without the white space around
/// it, is not looked at, and is reported with the reason; any other is.
pub proof fn utterances_are_screened(utterance: &str, w: Option<String>, r: Option<RouteOutcome>)
    requires
        call_ensures(unfit_words, (utterance,), w),
        call_ensures(screen, (utterance,), r),
    ensures
        r is None <==> 1 <= text::trimmed(utterance@).len() <= 1000,
        w is Some <==> r is Some,
        r matches Some(o) ==> o.utterance@ == utterance@ && o.matched_workflow_id is None && o.similarity_score is None
            && o.confirm_tier is None && o.extracted_params is None && (o.detail matches Some(d) && d@ == w->0@),
{
    text::trimmed_of_blank(utterance@);
    if let Some(o) = r {
        assert(o@.matched_workflow_id is None && o@.extracted_params is None && o@.detail is Some);
    }
}

/// A search is for the text that it was begun with, among the workflows that there are. The intents
/// that the router lacks are embedded first, where it lacks any, and the text itself next; the text is
/// then compared with the embedding of each candidate.
pub proof fn searches_embed_and_compare(
    before: Router,
    begun: Router,
    kind: ProbeKind,
    probe: &str,
    registry: Registry,
    s: (Search, Vec<String>),
)
    requires
        exists|t: &mut Router|
            #![trigger call_ensures(Router::begin_search, (t, kind, probe, &registry), s)]
            *t == before && *final(t) == begun && call_ensures(Router::begin_search, (t, kind, probe, &registry), s),
    ensures
        s.0.probe@ == probe@,
        s.0.kind == kind,
        cache::pairs(s.0.candidates@) == candidates_of(registry@),
        begun.embeds_with() == before.embeds_with(),
        begun.extracts_with() == before.extracts_with(),
        begun.cached() == cache::kept(before.cached(), candidates_of(registry@)),
        s.0.stage is Probe <==> cache::missing(before.cached(), candidates_of(registry@)).len() == 0,
        s.0.stage is Probe ==> text::texts(s.1@) == seq![probe@],
        s.0.stage matches SearchStage::Corpus(plan) ==> plan.to_embed() == cache::missing(
            before.cached(),
            candidates_of(registry@),
        ) && text::texts(s.1@) == text::texts(plan.intents@),
        !(s.0.stage is Compare),
{
}

/// An answer of the model takes a search one step on: embeddings of intents go to the cache, and the
/// text is asked for; the embedding of the text is compared with those of the candidates. An error, and
/// too few or too many embeddings, end the search with an error, and change nothing.
pub proof fn searches_go_on_by_answers(
    before: Router,
    after: Router,
    search: Search,
    answer: Result<Vec<Vec<u32>>, RouterError>,
    r: Result<(Search, SearchAsk), RouterError>,
)
    requires
        exists|t: &mut Router|
            #![trigger call_ensures(Router::embedded, (t, search, answer), r)]
            *t == before && *final(t) == after && call_ensures(Router::embedded, (t, search, answer), r),
        !(search.stage is Compare),
    ensures
        after.embeds_with() == before.embeds_with(),
        after.extracts_with() == before.extracts_with(),
        r is Err ==> after.cached() == before.cached(),
        answer matches Err(e) ==> (r matches Err(f) && f@ == e@),
        answer matches Ok(v) ==> match search.stage {
            SearchStage::Corpus(plan) => {
                &&& r is Ok <==> v@.len() == plan.ids@.len()
                &&& r matches Ok((next, ask)) ==> next.stage is Probe && next.probe@ == search.probe@ && next.kind
                    == search.kind && cache::pairs(next.candidates@) == cache::pairs(search.candidates@) && (
                ask matches SearchAsk::Embed(ts) && text::texts(ts@) == seq![search.probe@]) && after.cached()
                    == cache::filled(before.cached(), plan.to_embed(), cache::vectors(v@))
            },
            _ => {
                &&& r is Ok <==> v@.len() > 0
                &&& after.cached() == before.cached()
                &&& r matches Ok((next, ask)) ==> next.stage is Compare && next.probe@ == search.probe@ && next.kind
                    == search.kind && cache::pairs(next.candidates@) == cache::pairs(search.candidates@) && (
                ask@ matches SearchAskView::Compare { probe, against } && probe == v@[0]@ && against == embeddings_of(
                    before.cached(),
                    cache::pairs(search.candidates@),
                ))
            },
        },
{
    if let Ok((next, ask)) = r {
        assert(ask is Embed <==> ask@ is Embed);
    }
}

/// A router is made for its two models and starts without embeddings. The candidates are compared by
/// the embeddings that the cache has of them, one for one.
pub proof fn routers_use_their_models(
    a: String,
    b: String,
    r: Router,
    e: &String,
    x: &String,
    m: Map<Seq<char>, CacheEntryView>,
    cs: Seq<(Seq<char>, Seq<char>)>,
    i: int,
)
    requires
        call_ensures(Router::new, (a, b), r),
        call_ensures(Router::embed_model, (&r,), e),
        call_ensures(Router::extract_model, (&r,), x),
    ensures
        e@ == a@,
        x@ == b@,
        r.cached().dom() == Set::<Seq<char>>::empty(),
        embeddings_of(m, cs).len() == cs.len(),
        0 <= i < cs.len() && m.dom().contains(cs[i].0) ==> embeddings_of(m, cs)[i] == Some(m[cs[i].0].embedding),
        0 <= i < cs.len() && !m.dom().contains(cs[i].0) ==> embeddings_of(m, cs)[i] is None,
{
}

/// An intent collides with the closest workflow where their score is at least 0.6, and with none where
/// no score is.
pub proof fn collisions_are_with_the_closest(
    search: Search,
    scores: Vec<Option<u32>>,
    r: Option<IntentCollision>,
    at: int,
)
    requires
        call_ensures(collision_among, (&search, &scores), r),
        threshold::all_numbers(scores@),
        threshold::is_best(scores@, at),
        scores@.len() == search.candidates@.len(),
    ensures
        r is Some <==> 0x3f19_999a <= scores@[at]->0 <= 0x7f80_0000,
        r matches Some(c) ==> c.workflow_id@ == search.candidates@[at].0@ && c.intent@ == search.candidates@[at].1@
            && c.score == scores@[at]->0,
{
    let cs = cache::pairs(search.candidates@);
    assert(cs[at] == (search.candidates@[at].0@, search.candidates@[at].1@));
    if let Some(c) = r {
        let k = choose|k: int| #[trigger]
            collision::is_collision(cs, scores@, collision::COLLISION_THRESHOLD, k, c@);
        threshold::best_is_one(scores@, at, k);
        collision::close_intents_collide(cs, scores@, at, c@);
    } else {
        threshold::scores_compare_as_numbers(scores@[at]->0, 0x3f19_999a);
        threshold::scores_compare_as_numbers(0x3f19_999a, scores@[at]->0);
    }
}

/// Answers that cannot be used are told of in words: too few or too many embeddings by their numbers,
/// and none at all by what was to be embedded.
pub proof fn useless_answers_are_told_of(model: Seq<char>, expected: nat, got: nat)
    ensures
        cache::miscounted(model, expected, got) == (RouterErrorView::MalformedResponse {
            endpoint: model + ": /api/embed"@,
            detail: "expected "@ + text::decimal(expected) + " embeddings for the batched corpus sync, got "@
                + text::decimal(got),
        }),
        no_vector(model, ProbeKind::Utterance) == (RouterErrorView::MalformedResponse {
            endpoint: model + ": /api/embed"@,
            detail: "embed call for the utterance returned zero vectors"@,
        }),
        no_vector(model, ProbeKind::Intent) == (RouterErrorView::MalformedResponse {
            endpoint: model + ": /api/embed"@,
            detail: "embed call for the probe intent returned zero vectors"@,
        }),
{
}

/// What is seen of a question of a search is what it is.
pub proof fn questions_are_seen_as_they_are(q: SearchAsk, i: int)
    ensures
        q matches SearchAsk::Embed(ts) ==> q@ == SearchAskView::Embed(text::texts(ts@)),
        q matches SearchAsk::Compare { probe, against } ==> (q@ matches SearchAskView::Compare { probe: p, against: a } && p
            == probe@ && a.len() == against@.len() && (0 <= i < a.len() ==> match against@[i] {
            Some(v) => a[i] == Some(v@),
            None => a[i] is None,
        })),
{
}

} // verus!
