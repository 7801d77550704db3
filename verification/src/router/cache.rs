//! The embeddings of the workflows' intents. One is computed again only where the intent has
//! changed.

use vstd::prelude::*;

use crate::error;
use crate::error::{RouterError, RouterErrorView};
use crate::table;
use crate::table::Table;
use crate::text;

verus! {

/// The embedding of an intent, as the bits of its numbers, and the intent it is that of.
#[derive(Debug)]
pub struct CacheEntry {
    pub intent: String,
    pub embedding: Vec<u32>,
}

pub struct CacheEntryView {
    pub intent: Seq<char>,
    pub embedding: Seq<u32>,
}

impl View for CacheEntry {
    type V = CacheEntryView;

    open spec fn view(&self) -> CacheEntryView {
        CacheEntryView { intent: self.intent@, embedding: self.embedding@ }
    }
}

/// What became of the workflows in one go: how many embeddings were computed, how many were there
/// already, and how many went.
#[derive(Debug, Clone, Copy, PartialEq, Eq, Structural)]
pub struct SyncStats {
    pub recomputed: usize,
    pub reused: usize,
    pub evicted: usize,
}

/// What is left to do to bring the cache up to date.
#[derive(Debug)]
pub struct SyncPlan {
    pub ids: Vec<String>,
    /// The intents to embed, one for each id.
    pub intents: Vec<String>,
    pub reused: usize,
    pub evicted: usize,
}

/// What the pairs say.
pub open spec fn pairs(v: Seq<(String, String)>) -> Seq<(Seq<char>, Seq<char>)> {
    v.map_values(|p: (String, String)| (p.0@, p.1@))
}

/// The ids and intents of a plan, pair by pair.
pub open spec fn zipped(ids: Seq<Seq<char>>, intents: Seq<Seq<char>>) -> Seq<(Seq<char>, Seq<char>)> {
    Seq::new(ids.len(), |i: int| (ids[i], intents[i]))
}

impl SyncPlan {
    pub open spec fn well_formed(self) -> bool {
        self.ids@.len() == self.intents@.len()
    }

    /// The workflows whose intents are to be embedded.
    pub open spec fn to_embed(self) -> Seq<(Seq<char>, Seq<char>)> {
        zipped(text::texts(self.ids@), text::texts(self.intents@))
    }
}

/// The embeddings, by the ids of the workflows.
#[derive(Debug)]
pub struct EmbeddingCache {
    entries: Table<CacheEntry>,
}

pub open spec fn entries_view(m: Map<Seq<char>, CacheEntry>) -> Map<Seq<char>, CacheEntryView> {
    m.map_values(|e: CacheEntry| e@)
}

impl View for EmbeddingCache {
    type V = Map<Seq<char>, CacheEntryView>;

    closed spec fn view(&self) -> Map<Seq<char>, CacheEntryView> {
        entries_view(self.entries@)
    }
}

/// The ids of the workflows.
pub open spec fn ids_of(wanted: Seq<(Seq<char>, Seq<char>)>) -> Set<Seq<char>> {
    Set::new(|id: Seq<char>| exists|i: int| 0 <= i < wanted.len() && #[trigger] wanted[i].0 == id)
}

/// No id comes twice.
pub open spec fn distinct_ids(wanted: Seq<(Seq<char>, Seq<char>)>) -> bool {
    forall|i: int, j: int| 0 <= i < j < wanted.len() ==> (#[trigger] wanted[i]).0 != (#[trigger] wanted[j]).0
}

/// Whether the cache has the embedding of this very intent.
pub open spec fn is_fresh(m: Map<Seq<char>, CacheEntryView>, p: (Seq<char>, Seq<char>)) -> bool {
    m.dom().contains(p.0) && m[p.0].intent == p.1
}

/// The workflows whose intents are to be embedded, in their order.
pub open spec fn missing(m: Map<Seq<char>, CacheEntryView>, wanted: Seq<(Seq<char>, Seq<char>)>) -> Seq<
    (Seq<char>, Seq<char>),
>
    decreases wanted.len(),
{
    if wanted.len() == 0 {
        Seq::empty()
    } else {
        let before = missing(m, wanted.drop_last());
        if is_fresh(m, wanted.last()) {
            before
        } else {
            before.push(wanted.last())
        }
    }
}

/// The cache without the workflows that are gone.
pub open spec fn kept(m: Map<Seq<char>, CacheEntryView>, wanted: Seq<(Seq<char>, Seq<char>)>) -> Map<
    Seq<char>,
    CacheEntryView,
> {
    m.restrict(ids_of(wanted))
}

/// The cache with the embeddings of the workflows set, one after the other.
pub open spec fn filled(
    m: Map<Seq<char>, CacheEntryView>,
    workflows: Seq<(Seq<char>, Seq<char>)>,
    embeddings: Seq<Seq<u32>>,
) -> Map<Seq<char>, CacheEntryView>
    decreases workflows.len(),
{
    if workflows.len() == 0 {
        m
    } else {
        filled(m, workflows.drop_last(), embeddings.drop_last()).insert(
            workflows.last().0,
            CacheEntryView { intent: workflows.last().1, embedding: embeddings.last() },
        )
    }
}

/// What the embeddings are.
pub open spec fn vectors(v: Seq<Vec<u32>>) -> Seq<Seq<u32>> {
    v.map_values(|e: Vec<u32>| e@)
}

/// The name of the endpoint that computes embeddings, in messages about the model's answers.
pub open spec fn embed_endpoint_of(model: Seq<char>) -> Seq<char> {
    model + ": /api/embed"@
}

/// The embeddings are not as many as the intents.
pub open spec fn miscounted(model: Seq<char>, expected: nat, got: nat) -> RouterErrorView {
    RouterErrorView::MalformedResponse {
        endpoint: embed_endpoint_of(model),
        detail: "expected "@ + text::decimal(expected) + " embeddings for the batched corpus sync, got "@
            + text::decimal(got),
    }
}

fn wants(wanted: &Vec<(String, String)>, id: &str) -> (r: bool)
    ensures
        r == ids_of(pairs(wanted@)).contains(id@),
{
    let mut i: usize = 0;
    while i < wanted.len()
        invariant
            i <= wanted@.len(),
            forall|j: int| 0 <= j < i ==> (#[trigger] pairs(wanted@)[j]).0 != id@,
        decreases wanted@.len() - i,
    {
        assert(pairs(wanted@)[i as int].0 == wanted@[i as int].0@);
        if text::same_text(&wanted[i].0, id) {
            return true;
        }
        i = i + 1;
    }
    false
}

impl EmbeddingCache {
    /// A cache without embeddings.
    pub fn new() -> (r: Self)
        ensures
            r@ == Map::<Seq<char>, CacheEntryView>::empty(),
    {
        let r = EmbeddingCache { entries: Table::new() };
        assert(r@ =~= Map::<Seq<char>, CacheEntryView>::empty());
        r
    }

    /// The embedding of the workflow's intent.
    pub fn lookup(&self, id: &str) -> (r: Option<&Vec<u32>>)
        ensures
            match r {
                Some(e) => self@.dom().contains(id@) && self@[id@].embedding == e@,
                None => !self@.dom().contains(id@),
            },
    {
        match self.entries.get(id) {
            Some(e) => Some(&e.embedding),
            None => None,
        }
    }

    /// Drops the workflows that are gone, and counts them.
    fn evict(&mut self, wanted: &Vec<(String, String)>) -> (n: usize)
        ensures
            final(self)@ == kept(old(self)@, pairs(wanted@)),
            n == old(self)@.dom().difference(ids_of(pairs(wanted@))).len(),
    {
        let ghost all = self.entries@;
        let ghost rows = self.entries.rows();
        let ghost keep = ids_of(pairs(wanted@));
        let count = self.entries.len();
        let mut stale: Vec<String> = Vec::new();
        let mut i: usize = 0;
        while i < count
            invariant
                i <= count,
                count == rows.len(),
                rows == self.entries.rows(),
                table::in_key_order(rows),
                keep == ids_of(pairs(wanted@)),
                forall|j: int| 0 <= j < stale@.len() ==> !keep.contains(#[trigger] text::texts(stale@)[j])
                    && exists|k: int| 0 <= k < i && #[trigger] rows[k].0 == text::texts(stale@)[j],
                forall|k: int| 0 <= k < i && !keep.contains(#[trigger] rows[k].0) ==> text::texts(stale@).contains(rows[k].0),
                text::texts(stale@).no_duplicates(),
            decreases count - i,
        {
            let key = self.entries.key_at(i);
            if !wants(wanted, key) {
                let ghost before = text::texts(stale@);
                let id = key.clone();
                stale.push(id);
                proof {
                    text::texts_push(stale@.drop_last(), id);
                    assert(stale@.drop_last().push(id) =~= stale@);
                    let after = text::texts(stale@);
                    assert(after == before.push(rows[i as int].0));
                    assert forall|j: int| 0 <= j < after.len() implies !keep.contains(#[trigger] after[j]) && exists|k: int|
                        0 <= k < i + 1 && #[trigger] rows[k].0 == after[j] by {
                        if j < before.len() {
                            assert(after[j] == before[j]);
                        } else {
                            assert(rows[i as int].0 == after[j]);
                        }
                    }
                    assert forall|k: int| 0 <= k < i + 1 && !keep.contains(#[trigger] rows[k].0) implies after.contains(
                        rows[k].0,
                    ) by {
                        if k < i {
                            let j = choose|j: int| 0 <= j < before.len() && before[j] == rows[k].0;
                            assert(after[j] == rows[k].0);
                        } else {
                            assert(after[before.len() as int] == rows[k].0);
                        }
                    }
                    assert forall|a: int, b: int| 0 <= a < after.len() && 0 <= b < after.len() && a != b implies after[a]
                        != after[b] by {
                        let last = before.len() as int;
                        if a == last || b == last {
                            let other = if a == last { b } else { a };
                            assert(after[other] == before[other]);
                            let k = choose|k: int| 0 <= k < i && #[trigger] rows[k].0 == before[other];
                            assert(text::text_lt(rows[k].0, rows[i as int].0));
                            text::text_lt_irreflexive(rows[k].0);
                        } else {
                            assert(after[a] == before[a] && after[b] == before[b]);
                        }
                    }
                }
            }
            i = i + 1;
        }
        let ghost gone = text::texts(stale@);
        proof {
            gone.unique_seq_to_set();
            assert forall|k: Seq<char>| gone.to_set().contains(k) <==> all.dom().difference(keep).contains(k) by {
                if gone.contains(k) {
                    let j = choose|j: int| 0 <= j < gone.len() && gone[j] == k;
                    assert(!keep.contains(gone[j]));
                    let at = choose|at: int| 0 <= at < rows.len() && #[trigger] rows[at].0 == gone[j];
                    table::row_is_unique(rows, at);
                }
                if all.dom().contains(k) && !keep.contains(k) {
                    assert(table::has_key(rows, k));
                    let at = table::row_of(rows, k);
                    assert(rows[at].0 == k);
                }
            }
            assert(gone.to_set() =~= all.dom().difference(keep));
            assert(self@.dom() =~= all.dom());
        }
        let n = stale.len();
        let mut d: usize = 0;
        assert(gone.take(0).to_set() =~= Set::<Seq<char>>::empty());
        assert(self.entries@ =~= all.remove_keys(gone.take(0).to_set()));
        while d < n
            invariant
                d <= n,
                n == stale@.len(),
                gone == text::texts(stale@),
                self.entries@ == all.remove_keys(gone.take(d as int).to_set()),
            decreases n - d,
        {
            let _ = self.entries.remove(&stale[d]);
            proof {
                assert(gone[d as int] == stale@[d as int]@);
                assert(gone.take(d + 1) =~= gone.take(d as int).push(gone[d as int]));
                assert forall|k: Seq<char>| gone.take(d + 1).to_set().contains(k) <==> gone.take(d as int).to_set().contains(
                    k,
                ) || k == gone[d as int] by {
                    let t = gone.take(d as int);
                    let u = gone.take(d + 1);
                    if t.contains(k) {
                        let j = choose|j: int| 0 <= j < t.len() && t[j] == k;
                        assert(u[j] == k);
                    }
                    if u.contains(k) {
                        let j = choose|j: int| 0 <= j < u.len() && u[j] == k;
                        if j < d {
                            assert(t[j] == k);
                        }
                    }
                    assert(u[d as int] == gone[d as int]);
                }
                assert(self.entries@ =~= all.remove_keys(gone.take(d + 1).to_set()));
            }
            d = d + 1;
        }
        proof {
            assert(gone.take(n as int) =~= gone);
            assert(self.entries@ =~= all.restrict(keep));
            assert(self@ =~= kept(entries_view(all), pairs(wanted@)));
        }
        n
    }

    /// Drops the workflows that are gone, and tells which intents are to be embedded: those that
    /// the cache does not have, or has otherwise.
    pub fn plan_sync(&mut self, wanted: &Vec<(String, String)>) -> (r: SyncPlan)
        ensures
            final(self)@ == kept(old(self)@, pairs(wanted@)),
            r.well_formed(),
            r.to_embed() == missing(old(self)@, pairs(wanted@)),
            r.ids@.len() + r.reused == wanted@.len(),
            r.evicted == old(self)@.dom().difference(ids_of(pairs(wanted@))).len(),
    {
        let ghost before = self@;
        let evicted = self.evict(wanted);
        let ghost w = pairs(wanted@);
        let mut ids: Vec<String> = Vec::new();
        let mut intents: Vec<String> = Vec::new();
        let mut reused: usize = 0;
        let mut i: usize = 0;
        assert(w.take(0) =~= Seq::<(Seq<char>, Seq<char>)>::empty());
        assert(zipped(text::texts(ids@), text::texts(intents@)) =~= Seq::<(Seq<char>, Seq<char>)>::empty());
        while i < wanted.len()
            invariant
                i <= wanted@.len(),
                w == pairs(wanted@),
                self@ == kept(before, w),
                ids@.len() == intents@.len(),
                ids@.len() + reused == i,
                zipped(text::texts(ids@), text::texts(intents@)) == missing(before, w.take(i as int)),
            decreases wanted@.len() - i,
        {
            let id = &wanted[i].0;
            let intent = &wanted[i].1;
            proof {
                assert(w[i as int] == (id@, intent@));
                assert(ids_of(w).contains(id@)) by {
                    assert(w[i as int].0 == id@);
                }
                assert(w.take(i + 1).drop_last() =~= w.take(i as int));
                assert(w.take(i + 1).last() == w[i as int]);
            }
            let fresh = match self.entries.get(id) {
                Some(e) => e.intent == *intent,
                None => false,
            };
            assert(self@.dom().contains(id@) == self.entries@.dom().contains(id@));
            assert(self@.dom().contains(id@) ==> self@[id@] == self.entries@[id@]@);
            assert(fresh == is_fresh(before, w[i as int]));
            if fresh {
                reused = reused + 1;
            } else {
                let ghost ids0 = ids@;
                let ghost intents0 = intents@;
                let id = id.clone();
                let intent = intent.clone();
                ids.push(id);
                intents.push(intent);
                proof {
                    text::texts_push(ids0, id);
                    text::texts_push(intents0, intent);
                    assert(zipped(text::texts(ids@), text::texts(intents@)) =~= zipped(
                        text::texts(ids0),
                        text::texts(intents0),
                    ).push(w[i as int]));
                }
            }
            i = i + 1;
        }
        assert(w.take(w.len() as int) =~= w);
        SyncPlan { ids, intents, reused, evicted }
    }

    /// Takes the embeddings of a plan into the cache. Where there are not as many as intents,
    /// the cache stays as it is.
    pub fn apply_sync(&mut self, plan: SyncPlan, embeddings: Vec<Vec<u32>>, model: &str) -> (r: Result<
        SyncStats,
        RouterError,
    >)
        requires
            plan.well_formed(),
        ensures
            match r {
                Ok(stats) => {
                    &&& embeddings@.len() == plan.ids@.len()
                    &&& final(self)@ == filled(old(self)@, plan.to_embed(), vectors(embeddings@))
                    &&& stats.recomputed == plan.ids@.len()
                    &&& stats.reused == plan.reused
                    &&& stats.evicted == plan.evicted
                },
                Err(e) => {
                    &&& embeddings@.len() != plan.ids@.len()
                    &&& final(self)@ == old(self)@
                    &&& e@ == miscounted(model@, plan.ids@.len(), embeddings@.len())
                },
            },
    {
        let recomputed = plan.ids.len();
        if embeddings.len() != recomputed {
            let detail = error::words4(
                "expected ",
                &text::decimal_u64(recomputed as u64),
                " embeddings for the batched corpus sync, got ",
                &text::decimal_u64(embeddings.len() as u64),
            );
            return Err(RouterError::MalformedResponse { endpoint: text::concat2(model, ": /api/embed"), detail });
        }
        let ghost before = self@;
        let ghost work = plan.to_embed();
        let ghost all = vectors(embeddings@);
        let mut i: usize = 0;
        assert(work.take(0) =~= Seq::<(Seq<char>, Seq<char>)>::empty());
        for embedding in it: embeddings
            invariant
                i == it.index(),
                recomputed == plan.ids@.len(),
                it.seq() == embeddings@,
                all == vectors(embeddings@),
                all.len() == plan.ids@.len(),
                plan.well_formed(),
                work == plan.to_embed(),
                self@ == filled(before, work.take(i as int), all.take(i as int)),
        {
            let ghost entries0 = self.entries@;
            let id = plan.ids[i].clone();
            let entry = CacheEntry { intent: plan.intents[i].clone(), embedding };
            self.entries.insert(id, entry);
            proof {
                assert(entries_view(self.entries@) =~= entries_view(entries0).insert(id@, entry@));
                assert(work.take(i + 1).drop_last() =~= work.take(i as int));
                assert(all.take(i + 1).drop_last() =~= all.take(i as int));
                assert(all[i as int] == embedding@);
                assert(work[i as int] == (id@, entry@.intent));
            }
            i = i + 1;
        }
        assert(work.take(work.len() as int) =~= work);
        assert(all.take(all.len() as int) =~= all);
        Ok(SyncStats { recomputed, reused: plan.reused, evicted: plan.evicted })
    }
}

/// What is to be embedded is wanted and not there, and what is wanted and not there is to be
/// embedded.
proof fn missing_are_not_fresh(m: Map<Seq<char>, CacheEntryView>, wanted: Seq<(Seq<char>, Seq<char>)>)
    ensures
        forall|j: int|
            0 <= j < missing(m, wanted).len() ==> !is_fresh(m, #[trigger] missing(m, wanted)[j]) && wanted.contains(
                missing(m, wanted)[j],
            ),
        forall|i: int|
            0 <= i < wanted.len() && !is_fresh(m, #[trigger] wanted[i]) ==> missing(m, wanted).contains(wanted[i]),
        distinct_ids(wanted) ==> distinct_ids(missing(m, wanted)),
    decreases wanted.len(),
{
    if wanted.len() > 0 {
        let before = wanted.drop_last();
        missing_are_not_fresh(m, before);
        let some = missing(m, before);
        let all = missing(m, wanted);
        let last = wanted.last();
        assert forall|j: int| 0 <= j < all.len() implies !is_fresh(m, #[trigger] all[j]) && wanted.contains(all[j]) by {
            if j < some.len() {
                assert(all[j] == some[j]);
                let i = choose|i: int| 0 <= i < before.len() && before[i] == some[j];
                assert(wanted[i] == some[j]);
            } else {
                assert(wanted[wanted.len() - 1] == all[j]);
            }
        }
        assert forall|i: int| 0 <= i < wanted.len() && !is_fresh(m, #[trigger] wanted[i]) implies all.contains(
            wanted[i],
        ) by {
            if i < before.len() {
                assert(before[i] == wanted[i]);
                let j = choose|j: int| 0 <= j < some.len() && some[j] == wanted[i];
                assert(all[j] == wanted[i]);
            } else {
                assert(all[some.len() as int] == wanted[i]);
            }
        }
        if distinct_ids(wanted) {
            assert forall|i: int, j: int| 0 <= i < j < before.len() implies (#[trigger] before[i]).0
                != (#[trigger] before[j]).0 by {
                assert(wanted[i].0 != wanted[j].0);
            }
            assert forall|a: int, b: int| 0 <= a < b < all.len() implies (#[trigger] all[a]).0
                != (#[trigger] all[b]).0 by {
                assert(all[a] == some[a]);
                if b < some.len() {
                    assert(all[b] == some[b]);
                } else {
                    let i = choose|i: int| 0 <= i < before.len() && before[i] == some[a];
                    assert(wanted[i].0 != wanted[wanted.len() - 1].0);
                }
            }
        }
    }
}

/// A cache that was filled holds what it was filled with, and what it held of other workflows.
proof fn filled_holds(
    m: Map<Seq<char>, CacheEntryView>,
    workflows: Seq<(Seq<char>, Seq<char>)>,
    embeddings: Seq<Seq<u32>>,
)
    requires
        distinct_ids(workflows),
        embeddings.len() == workflows.len(),
    ensures
        forall|i: int|
            0 <= i < workflows.len() ==> filled(m, workflows, embeddings).dom().contains(
                (#[trigger] workflows[i]).0,
            ) && filled(m, workflows, embeddings)[workflows[i].0] == (CacheEntryView {
                intent: workflows[i].1,
                embedding: embeddings[i],
            }),
        forall|k: Seq<char>| #[trigger]
            filled(m, workflows, embeddings).dom().contains(k) <==> m.dom().contains(k) || ids_of(workflows).contains(k),
        forall|k: Seq<char>|
            m.dom().contains(k) && !ids_of(workflows).contains(k) ==> #[trigger] filled(m, workflows, embeddings)[k]
                == m[k],
    decreases workflows.len(),
{
    if workflows.len() > 0 {
        let w = workflows.drop_last();
        let e = embeddings.drop_last();
        assert forall|i: int, j: int| 0 <= i < j < w.len() implies (#[trigger] w[i]).0 != (#[trigger] w[j]).0 by {
            assert(workflows[i].0 != workflows[j].0);
        }
        filled_holds(m, w, e);
        let last = workflows.len() - 1;
        assert forall|i: int| 0 <= i < last implies workflows[last].0 != (#[trigger] workflows[i]).0 && w[i]
            == workflows[i] && e[i] == embeddings[i] by {}
        let all = filled(m, workflows, embeddings);
        assert forall|k: Seq<char>|
            #![trigger all.dom().contains(k)]
            #![trigger all[k]]
            (all.dom().contains(k) <==> m.dom().contains(k) || ids_of(workflows).contains(k)) && (m.dom().contains(k)
                && !ids_of(workflows).contains(k) ==> all[k] == m[k]) by {
            if ids_of(w).contains(k) {
                let i = choose|i: int| 0 <= i < w.len() && #[trigger] w[i].0 == k;
                assert(workflows[i].0 == k);
            }
            if ids_of(workflows).contains(k) {
                let i = choose|i: int| 0 <= i < workflows.len() && #[trigger] workflows[i].0 == k;
                if i < last {
                    assert(w[i].0 == k);
                }
            }
            assert(workflows[last].0 == workflows.last().0);
            assert(filled(m, w, e).dom().contains(k) == (m.dom().contains(k) || ids_of(w).contains(k)));
        }
    }
}

/// After the cache was brought up to date it holds the workflows that there are and no others,
/// each with its present intent. An embedding that was there already is the one that is there
/// still, and doing it all once more has nothing to embed and nothing to drop.
pub proof fn up_to_date_stays_so(
    m: Map<Seq<char>, CacheEntryView>,
    wanted: Seq<(Seq<char>, Seq<char>)>,
    embeddings: Seq<Seq<u32>>,
)
    requires
        distinct_ids(wanted),
        embeddings.len() == missing(m, wanted).len(),
    ensures
        ({
            let after = filled(kept(m, wanted), missing(m, wanted), embeddings);
            &&& after.dom() == ids_of(wanted)
            &&& forall|i: int| 0 <= i < wanted.len() ==> is_fresh(after, #[trigger] wanted[i])
            &&& forall|i: int|
                0 <= i < wanted.len() && is_fresh(m, #[trigger] wanted[i]) ==> after[wanted[i].0] == m[wanted[i].0]
            &&& missing(after, wanted) == Seq::<(Seq<char>, Seq<char>)>::empty()
            &&& after.dom().difference(ids_of(wanted)).len() == 0
            &&& kept(after, wanted) == after
        }),
{
    let work = missing(m, wanted);
    let base = kept(m, wanted);
    let after = filled(base, work, embeddings);
    missing_are_not_fresh(m, wanted);
    filled_holds(base, work, embeddings);
    assert forall|k: Seq<char>| after.dom().contains(k) <==> ids_of(wanted).contains(k) by {
        if ids_of(work).contains(k) {
            let j = choose|j: int| 0 <= j < work.len() && #[trigger] work[j].0 == k;
            let i = choose|i: int| 0 <= i < wanted.len() && wanted[i] == work[j];
            assert(wanted[i].0 == k);
        }
        if ids_of(wanted).contains(k) {
            let i = choose|i: int| 0 <= i < wanted.len() && #[trigger] wanted[i].0 == k;
            if !is_fresh(m, wanted[i]) {
                let j = choose|j: int| 0 <= j < work.len() && work[j] == wanted[i];
                assert(work[j].0 == k);
            }
        }
    }
    assert(after.dom() =~= ids_of(wanted));
    assert forall|i: int| 0 <= i < wanted.len() implies is_fresh(after, #[trigger] wanted[i]) && (is_fresh(m, wanted[i])
        ==> after[wanted[i].0] == m[wanted[i].0]) by {
        let k = wanted[i].0;
        assert(ids_of(wanted).contains(k));
        if is_fresh(m, wanted[i]) {
            if ids_of(work).contains(k) {
                let j = choose|j: int| 0 <= j < work.len() && #[trigger] work[j].0 == k;
                assert(!is_fresh(m, work[j]));
                let h = choose|h: int| 0 <= h < wanted.len() && wanted[h] == work[j];
                if h < i {
                    assert(wanted[h].0 != wanted[i].0);
                } else if i < h {
                    assert(wanted[i].0 != wanted[h].0);
                }
            }
            assert(after[k] == base[k]);
        } else {
            let j = choose|j: int| 0 <= j < work.len() && work[j] == wanted[i];
            assert(after[work[j].0].intent == work[j].1);
        }
    }
    nothing_is_missing(after, wanted);
    assert(after.dom().difference(ids_of(wanted)) =~= Set::<Seq<char>>::empty());
    assert(kept(after, wanted) =~= after);
}

proof fn nothing_is_missing(m: Map<Seq<char>, CacheEntryView>, wanted: Seq<(Seq<char>, Seq<char>)>)
    requires
        forall|i: int| 0 <= i < wanted.len() ==> is_fresh(m, #[trigger] wanted[i]),
    ensures
        missing(m, wanted) == Seq::<(Seq<char>, Seq<char>)>::empty(),
    decreases wanted.len(),
{
    if wanted.len() > 0 {
        assert forall|i: int| 0 <= i < wanted.drop_last().len() implies is_fresh(m, #[trigger] wanted.drop_last()[i]) by {
            assert(wanted.drop_last()[i] == wanted[i]);
        }
        nothing_is_missing(m, wanted.drop_last());
        assert(is_fresh(m, wanted[wanted.len() - 1]));
    }
}

/// Bringing the cache up to date drops the workflows that are gone, and counts them; what is to be
/// embedded are the wanted workflows that the cache does not have with their present intent.
pub proof fn plans_embed_what_has_changed(
    before: EmbeddingCache,
    after: EmbeddingCache,
    wanted: Vec<(String, String)>,
    plan: SyncPlan,
    i: int,
    j: int,
    id: &str,
    r: Option<&Vec<u32>>,
)
    requires
        exists|t: &mut EmbeddingCache|
            #![trigger call_ensures(EmbeddingCache::plan_sync, (t, &wanted), plan)]
            *t == before && *final(t) == after && call_ensures(EmbeddingCache::plan_sync, (t, &wanted), plan),
        call_ensures(EmbeddingCache::lookup, (&after, id), r),
        0 <= i < wanted@.len(),
        0 <= j < plan.ids@.len(),
    ensures
        r is Some <==> before@.dom().contains(id@) && exists|k: int|
            0 <= k < wanted@.len() && (#[trigger] wanted@[k]).0@ == id@,
        r is Some ==> r->0@ == before@[id@].embedding,
        plan.ids@.len() == plan.intents@.len(),
        plan.ids@.len() + plan.reused == wanted@.len(),
        !(before@.dom().contains(wanted@[i].0@) && before@[wanted@[i].0@].intent == wanted@[i].1@) ==> exists|k: int|
            0 <= k < plan.ids@.len() && (#[trigger] plan.ids@[k])@ == wanted@[i].0@ && plan.intents@[k]@ == wanted@[i].1@,
        !(before@.dom().contains(plan.ids@[j]@) && before@[plan.ids@[j]@].intent == plan.intents@[j]@),
        exists|k: int|
            0 <= k < wanted@.len() && (#[trigger] wanted@[k]).0@ == plan.ids@[j]@ && wanted@[k].1@ == plan.intents@[j]@,
        plan.evicted == before@.dom().difference(ids_of(pairs(wanted@))).len(),
{
    let w = pairs(wanted@);
    let work = missing(before@, w);
    missing_are_not_fresh(before@, w);
    assert(w.len() == wanted@.len());
    assert forall|k: int| 0 <= k < wanted@.len() implies w[k] == ((#[trigger] wanted@[k]).0@, wanted@[k].1@) by {}
    assert(plan.to_embed() == work);
    assert(text::texts(plan.ids@).len() == plan.ids@.len());
    assert forall|k: int| 0 <= k < plan.ids@.len() implies work[k] == ((#[trigger] plan.ids@[k])@, plan.intents@[k]@) by {
        assert(plan.to_embed()[k] == (text::texts(plan.ids@)[k], text::texts(plan.intents@)[k]));
    }
    if ids_of(w).contains(id@) {
        let k = choose|k: int| 0 <= k < w.len() && #[trigger] w[k].0 == id@;
        assert(wanted@[k].0@ == id@);
    }
    if exists|k: int| 0 <= k < wanted@.len() && (#[trigger] wanted@[k]).0@ == id@ {
        let k = choose|k: int| 0 <= k < wanted@.len() && (#[trigger] wanted@[k]).0@ == id@;
        assert(w[k].0 == id@);
    }
    assert(w[i] == (wanted@[i].0@, wanted@[i].1@));
    if !is_fresh(before@, w[i]) {
        let k = choose|k: int| 0 <= k < work.len() && work[k] == w[i];
        assert(plan.ids@[k]@ == w[i].0);
    }
    assert(work[j] == (plan.ids@[j]@, plan.intents@[j]@));
    let k = choose|k: int| 0 <= k < w.len() && w[k] == work[j];
    assert(wanted@[k].0@ == plan.ids@[j]@);
}

/// The embeddings of a plan are taken into the cache one for each workflow, where there are as many:
/// each workflow has then the embedding in its place, and every other has the one it had. Where there
/// are more or fewer, the cache stays as it is.
pub proof fn embeddings_go_to_their_workflows(
    before: EmbeddingCache,
    after: EmbeddingCache,
    plan: SyncPlan,
    embeddings: Vec<Vec<u32>>,
    model: &str,
    s: Result<SyncStats, RouterError>,
    j: int,
    id: &str,
    r: Option<&Vec<u32>>,
)
    requires
        plan.ids@.len() == plan.intents@.len(),
        forall|a: int, b: int| 0 <= a < b < plan.ids@.len() ==> (#[trigger] plan.ids@[a])@ != (#[trigger] plan.ids@[b])@,
        exists|t: &mut EmbeddingCache|
            #![trigger call_ensures(EmbeddingCache::apply_sync, (t, plan, embeddings, model), s)]
            *t == before && *final(t) == after && call_ensures(
                EmbeddingCache::apply_sync,
                (t, plan, embeddings, model),
                s,
            ),
        call_ensures(EmbeddingCache::lookup, (&after, id), r),
    ensures
        s is Ok <==> embeddings@.len() == plan.ids@.len(),
        s is Err ==> after@ == before@ && (s->Err_0@ matches RouterErrorView::MalformedResponse { endpoint, .. }
            && endpoint == model@ + ": /api/embed"@),
        s matches Ok(stats) ==> stats.recomputed == plan.ids@.len() && stats.reused == plan.reused && stats.evicted
            == plan.evicted,
        s is Ok && 0 <= j < plan.ids@.len() && id@ == plan.ids@[j]@ ==> (r matches Some(e) && e@ == embeddings@[j]@)
            && after@[id@].intent == plan.intents@[j]@,
        s is Ok && (forall|k: int| 0 <= k < plan.ids@.len() ==> (#[trigger] plan.ids@[k])@ != id@) ==> (r is Some
            <==> before@.dom().contains(id@)) && (r is Some ==> r->0@ == before@[id@].embedding),
{
    let work = plan.to_embed();
    let all = vectors(embeddings@);
    assert(text::texts(plan.ids@).len() == plan.ids@.len());
    assert forall|k: int| 0 <= k < plan.ids@.len() implies work[k] == ((#[trigger] plan.ids@[k])@, plan.intents@[k]@) by {
        assert(plan.to_embed()[k] == (text::texts(plan.ids@)[k], text::texts(plan.intents@)[k]));
    }
    assert forall|a: int, b: int| 0 <= a < b < work.len() implies (#[trigger] work[a]).0 != (#[trigger] work[b]).0 by {
        assert(plan.ids@[a]@ != plan.ids@[b]@);
    }
    if s is Ok {
        filled_holds(before@, work, all);
        if 0 <= j < plan.ids@.len() && id@ == plan.ids@[j]@ {
            assert(work[j] == (plan.ids@[j]@, plan.intents@[j]@));
            assert(all[j] == embeddings@[j]@);
        }
        if forall|k: int| 0 <= k < plan.ids@.len() ==> (#[trigger] plan.ids@[k])@ != id@ {
            if ids_of(work).contains(id@) {
                let k = choose|k: int| 0 <= k < work.len() && #[trigger] work[k].0 == id@;
                assert(plan.ids@[k]@ == id@);
            }
        }
    }
}

/// What is seen of an embedding that is kept is its intent and its numbers, and what is seen of a list of
/// workflows is each id with its intent.
pub proof fn entries_are_seen_as_they_are(e: CacheEntry, ps: Seq<(String, String)>, vs: Seq<Vec<u32>>, i: int)
    ensures
        e@.intent == e.intent@,
        e@.embedding == e.embedding@,
        pairs(ps).len() == ps.len(),
        0 <= i < ps.len() ==> pairs(ps)[i].0 == ps[i].0@ && pairs(ps)[i].1 == ps[i].1@,
        vectors(vs).len() == vs.len(),
        0 <= i < vs.len() ==> vectors(vs)[i] == vs[i]@,
{
}

} // verus!
