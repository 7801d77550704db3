//! The workflows that there are.

pub mod loader;
pub mod writer;

use vstd::prelude::*;

use crate::definition::{WorkflowDefinition, WorkflowDefinitionView, WorkflowSummary, WorkflowSummaryView};
use crate::error::{LoadError, LoadErrorView};
use crate::table;
use crate::table::Table;
use crate::text;

verus! {

/// What the definitions say, by id.
pub open spec fn definitions_view(m: Map<Seq<char>, WorkflowDefinition>) -> Map<Seq<char>, WorkflowDefinitionView> {
    m.map_values(|d: WorkflowDefinition| d@)
}

/// The workflows, by id.
pub struct Registry {
    definitions: Table<WorkflowDefinition>,
}

impl View for Registry {
    type V = Map<Seq<char>, WorkflowDefinitionView>;

    closed spec fn view(&self) -> Map<Seq<char>, WorkflowDefinitionView> {
        definitions_view(self.definitions@)
    }
}

/// What became of a file that was looked at.
pub struct LoadedFile {
    pub path: String,
    pub outcome: Result<WorkflowDefinition, LoadError>,
}

pub struct LoadedFileView {
    pub path: Seq<char>,
    pub outcome: Result<WorkflowDefinitionView, LoadErrorView>,
}

impl View for LoadedFile {
    type V = LoadedFileView;

    open spec fn view(&self) -> LoadedFileView {
        LoadedFileView { path: self.path@, outcome: loader::loaded_view(self.outcome) }
    }
}

/// What the files say.
pub open spec fn files_view(files: Seq<LoadedFile>) -> Seq<LoadedFileView> {
    files.map_values(|f: LoadedFile| f@)
}

/// What the errors say.
pub open spec fn errors_view(errors: Seq<LoadError>) -> Seq<LoadErrorView> {
    errors.map_values(|e: LoadError| e@)
}

/// The workflows in the files: of two with one id the first counts.
pub open spec fn definitions_in(files: Seq<LoadedFileView>) -> Map<Seq<char>, WorkflowDefinitionView>
    decreases files.len(),
{
    if files.len() == 0 {
        Map::empty()
    } else {
        let before = definitions_in(files.drop_last());
        match files.last().outcome {
            Ok(d) => if before.dom().contains(d.id) {
                before
            } else {
                before.insert(d.id, d)
            },
            Err(e) => before,
        }
    }
}

/// What is wrong with the files, in their order: a file that could not be loaded, or one whose id
/// is taken.
pub open spec fn errors_in(files: Seq<LoadedFileView>) -> Seq<LoadErrorView>
    decreases files.len(),
{
    if files.len() == 0 {
        Seq::empty()
    } else {
        let before = errors_in(files.drop_last());
        match files.last().outcome {
            Ok(d) => if definitions_in(files.drop_last()).dom().contains(d.id) {
                before.push(LoadErrorView::DuplicateId { path: files.last().path, id: d.id })
            } else {
                before
            },
            Err(e) => before.push(e),
        }
    }
}

/// What a list of workflows says of this one.
pub open spec fn summary_of(d: WorkflowDefinitionView) -> WorkflowSummaryView {
    WorkflowSummaryView { id: d.id, name: d.name, description: d.description }
}

/// What the list of workflows says, in the order of their ids.
pub open spec fn summaries_of(m: Map<Seq<char>, WorkflowDefinitionView>) -> Seq<WorkflowSummaryView> {
    table::listed(m.dom()).map_values(|k: Seq<char>| summary_of(m[k]))
}

/// What the summaries say.
pub open spec fn summaries_view(v: Seq<WorkflowSummary>) -> Seq<WorkflowSummaryView> {
    v.map_values(|s: WorkflowSummary| s@)
}

impl Registry {
    #[verifier::type_invariant]
    spec fn keyed_by_id(self) -> bool {
        forall|k: Seq<char>| #[trigger] self.definitions@.dom().contains(k) ==> self.definitions@[k].id@ == k
    }

    /// A registry without workflows.
    pub fn new() -> (r: Self)
        ensures
            r@ == Map::<Seq<char>, WorkflowDefinitionView>::empty(),
    {
        let r = Registry { definitions: Table::new() };
        assert(r@ =~= Map::<Seq<char>, WorkflowDefinitionView>::empty());
        r
    }

    /// The workflows in the files that were looked at, and what is wrong: first what went wrong
    /// with looking, then what is wrong with the files. No error keeps another file from being
    /// loaded.
    pub fn load(scan_errors: Vec<LoadError>, files: Vec<LoadedFile>) -> (r: (Self, Vec<LoadError>))
        ensures
            r.0@ == definitions_in(files_view(files@)),
            errors_view(r.1@) == errors_view(scan_errors@) + errors_in(files_view(files@)),
    {
        let ghost all = files_view(files@);
        let ghost first = errors_view(scan_errors@);
        let mut definitions: Table<WorkflowDefinition> = Table::new();
        let mut errors = scan_errors;
        assert(all.take(0) =~= Seq::<LoadedFileView>::empty());
        assert(definitions_view(definitions@) =~= Map::<Seq<char>, WorkflowDefinitionView>::empty());
        assert(first + Seq::<LoadErrorView>::empty() =~= first);
        for file in it: files
            invariant
                all == files_view(it.seq()),
                forall|k: Seq<char>| #[trigger] definitions@.dom().contains(k) ==> definitions@[k].id@ == k,
                definitions_view(definitions@) == definitions_in(all.take(it.index())),
                errors_view(errors@) == first + errors_in(all.take(it.index())),
        {
            let ghost i = it.index();
            let ghost f = all[i];
            let ghost known = definitions@;
            let ghost told = errors@;
            proof {
                assert(file@ == f);
                assert(all.take(i + 1).drop_last() =~= all.take(i));
                assert(all.take(i + 1).last() == f);
            }
            match file.outcome {
                Ok(def) => {
                    if definitions.contains_key(&def.id) {
                        let e = LoadError::DuplicateId { path: file.path, id: def.id };
                        errors.push(e);
                        proof {
                            assert(errors_view(errors@) =~= errors_view(told).push(e@));
                        }
                    } else {
                        let id = def.id.clone();
                        definitions.insert(id, def);
                        proof {
                            assert(definitions_view(definitions@) =~= definitions_view(known).insert(def@.id, def@));
                        }
                    }
                },
                Err(e) => {
                    errors.push(e);
                    proof {
                        assert(errors_view(errors@) =~= errors_view(told).push(e@));
                    }
                },
            }
            assert(errors_view(errors@) =~= first + errors_in(all.take(i + 1)));
        }
        assert(all.take(all.len() as int) =~= all);
        (Registry { definitions }, errors)
    }

    /// A list of the workflows, in the order of their ids.
    pub fn enumerate(&self) -> (r: Vec<WorkflowSummary>)
        ensures
            summaries_view(r@) == summaries_of(self@),
            forall|i: int, j: int| 0 <= i < j < r@.len() ==> text::text_lt(#[trigger] r@[i]@.id, #[trigger] r@[j]@.id),
            forall|i: int|
                0 <= i < r@.len() ==> self@.dom().contains(#[trigger] r@[i]@.id) && r@[i]@ == summary_of(
                    self@[r@[i]@.id],
                ),
            forall|k: Seq<char>| #[trigger]
                self@.dom().contains(k) ==> exists|i: int| 0 <= i < r@.len() && #[trigger] r@[i]@.id == k,
    {
        proof {
            use_type_invariant(self);
        }
        let mut out: Vec<WorkflowSummary> = Vec::new();
        let n = self.definitions.len();
        let ghost rows = self.definitions.rows();
        let mut i: usize = 0;
        while i < n
            invariant
                i <= n,
                n == rows.len(),
                rows == self.definitions.rows(),
                out@.len() == i,
                forall|j: int| 0 <= j < i ==> #[trigger] out@[j]@ == summary_of(rows[j].1@),
            decreases n - i,
        {
            let d = self.definitions.value_at(i);
            out.push(
                WorkflowSummary { id: d.id.clone(), name: d.name.clone(), description: d.description.clone() },
            );
            i = i + 1;
        }
        proof {
            assert forall|j: int| 0 <= j < rows.len() implies self.definitions@.dom().contains(#[trigger] rows[j].0)
                && self.definitions@[rows[j].0] == rows[j].1 && rows[j].1.id@ == rows[j].0 by {
                table::row_is_unique(rows, j);
            }
            assert forall|i: int| 0 <= i < out@.len() implies #[trigger] out@[i]@.id == rows[i].0 && self@.dom().contains(
                out@[i]@.id,
            ) && out@[i]@ == summary_of(self@[out@[i]@.id]) by {
                assert(rows[i].1.id@ == rows[i].0);
            }
            assert forall|i: int, j: int| 0 <= i < j < out@.len() implies text::text_lt(
                #[trigger] out@[i]@.id,
                #[trigger] out@[j]@.id,
            ) by {
                assert(text::text_lt(rows[i].0, rows[j].0));
            }
            assert forall|k: Seq<char>| #[trigger] self@.dom().contains(k) implies exists|i: int|
                0 <= i < out@.len() && #[trigger] out@[i]@.id == k by {
                assert(table::has_key(rows, k));
                let at = table::row_of(rows, k);
                assert(rows[at].0 == k);
                assert(out@[at]@.id == k);
            }
            let names = Seq::new(out@.len(), |i: int| out@[i]@.id);
            assert forall|k: Seq<char>| #[trigger] names.contains(k) <==> self@.dom().contains(k) by {
                if names.contains(k) {
                    let i = choose|i: int| 0 <= i < names.len() && names[i] == k;
                    assert(out@[i]@.id == k);
                }
                if self@.dom().contains(k) {
                    let i = choose|i: int| 0 <= i < out@.len() && #[trigger] out@[i]@.id == k;
                    assert(names[i] == k);
                }
            }
            table::listed_is(names, self@.dom());
            assert(summaries_view(out@) =~= summaries_of(self@));
        }
        out
    }

    /// The workflow with the id.
    pub fn lookup(&self, id: &str) -> (r: Option<&WorkflowDefinition>)
        ensures
            match r {
                Some(d) => self@.dom().contains(id@) && self@[id@] == d@ && d@.id == id@,
                None => !self@.dom().contains(id@),
            },
    {
        proof {
            use_type_invariant(self);
        }
        self.definitions.get(id)
    }

    /// The number of workflows.
    pub fn len(&self) -> (n: usize)
        ensures
            n == self@.dom().len(),
    {
        let n = self.definitions.len();
        proof {
            table::keys_are_counted(self.definitions.rows());
            assert(self@.dom() =~= self.definitions@.dom());
        }
        n
    }
}

/// Of two files that define one id, the later is reported and the earlier is kept.
pub proof fn first_definition_wins(files: Seq<LoadedFileView>, at: int)
    requires
        0 <= at < files.len(),
        files[at].outcome is Ok,
        forall|j: int| 0 <= j < at && (#[trigger] files[j]).outcome is Ok ==> files[j].outcome->Ok_0.id
            != files[at].outcome->Ok_0.id,
    ensures
        definitions_in(files).dom().contains(files[at].outcome->Ok_0.id),
        definitions_in(files)[files[at].outcome->Ok_0.id] == files[at].outcome->Ok_0,
    decreases files.len(),
{
    if at < files.len() - 1 {
        first_definition_wins(files.drop_last(), at);
    } else {
        let id = files[at].outcome->Ok_0.id;
        if definitions_in(files.drop_last()).dom().contains(id) {
            loaded_from_somewhere(files.drop_last(), id);
            let j = choose|j: int| 0 <= j < files.drop_last().len() && (#[trigger] files.drop_last()[j]).outcome is Ok
                && files.drop_last()[j].outcome->Ok_0.id == id;
            assert(files[j].outcome is Ok);
        }
    }
}

/// A workflow in the registry comes from a file, and is kept under its own id.
pub proof fn loaded_from_somewhere(files: Seq<LoadedFileView>, id: Seq<char>)
    requires
        definitions_in(files).dom().contains(id),
    ensures
        definitions_in(files)[id].id == id,
        exists|j: int|
            0 <= j < files.len() && (#[trigger] files[j]).outcome is Ok && files[j].outcome->Ok_0.id == id
                && definitions_in(files)[id] == files[j].outcome->Ok_0,
    decreases files.len(),
{
    if files.len() > 0 {
        let last = files.len() - 1;
        let before = files.drop_last();
        if files[last].outcome is Ok && files[last].outcome->Ok_0.id == id && !definitions_in(before).dom().contains(id) {
            assert(files[last].outcome is Ok);
        } else {
            loaded_from_somewhere(before, id);
            let j = choose|j: int|
                0 <= j < before.len() && (#[trigger] before[j]).outcome is Ok && before[j].outcome->Ok_0.id == id
                    && definitions_in(before)[id] == before[j].outcome->Ok_0;
            assert(files[j] == before[j]);
        }
    }
}

/// Every file leaves a trace: it is in the registry, or there is an error that names it.
pub proof fn every_file_is_loaded_or_reported(files: Seq<LoadedFileView>, at: int)
    requires
        0 <= at < files.len(),
    ensures
        match files[at].outcome {
            Ok(d) => definitions_in(files).dom().contains(d.id) && (definitions_in(files)[d.id] == d || errors_in(
                files,
            ).contains(LoadErrorView::DuplicateId { path: files[at].path, id: d.id })),
            Err(e) => errors_in(files).contains(e),
        },
    decreases files.len(),
{
    let before = files.drop_last();
    let told = errors_in(before);
    let now = errors_in(files);
    if at < files.len() - 1 {
        every_file_is_loaded_or_reported(before, at);
        assert(before[at] == files[at]);
        let e = match files[at].outcome {
            Ok(d) => LoadErrorView::DuplicateId { path: files[at].path, id: d.id },
            Err(e) => e,
        };
        if told.contains(e) {
            let k = choose|k: int| 0 <= k < told.len() && told[k] == e;
            assert(now[k] == e);
        }
    } else {
        if now.len() > told.len() {
            assert(now[now.len() - 1] == now.last());
        }
    }
}

/// Loading goes from file to file. A file that could not be loaded adds its error and nothing else; a
/// workflow whose id is new is added; and one whose id is taken is reported, with its path and its id,
/// and changes nothing. Without files there is nothing.
pub proof fn one_file_more(files: Seq<LoadedFileView>, f: LoadedFileView)
    ensures
        definitions_in(Seq::empty()) == Map::<Seq<char>, WorkflowDefinitionView>::empty(),
        errors_in(Seq::empty()) == Seq::<LoadErrorView>::empty(),
        ({
            let (d0, e0) = (definitions_in(files), errors_in(files));
            let (d1, e1) = (definitions_in(files.push(f)), errors_in(files.push(f)));
            &&& f.outcome matches Err(e) ==> d1 == d0 && e1 == e0.push(e)
            &&& f.outcome matches Ok(d) ==> {
                &&& d0.dom().contains(d.id) ==> d1 == d0 && e1 == e0.push(
                    LoadErrorView::DuplicateId { path: f.path, id: d.id },
                )
                &&& !d0.dom().contains(d.id) ==> d1 == d0.insert(d.id, d) && e1 == e0
            }
        }),
{
    assert(files.push(f).drop_last() =~= files);
    assert(files.push(f).last() == f);
}

/// The list of workflows has each of them once, in the order of the ids, with its id, its name and its
/// description.
pub proof fn every_workflow_is_listed(m: Map<Seq<char>, WorkflowDefinitionView>, ids: Seq<Seq<char>>)
    requires
        forall|i: int, j: int| 0 <= i < j < ids.len() ==> text::text_lt(#[trigger] ids[i], #[trigger] ids[j]),
        forall|id: Seq<char>| #[trigger] ids.contains(id) <==> m.dom().contains(id),
    ensures
        summaries_of(m).len() == ids.len(),
        forall|i: int|
            0 <= i < ids.len() ==> {
                let s = #[trigger] summaries_of(m)[i];
                &&& s.id == m[ids[i]].id
                &&& s.name == m[ids[i]].name
                &&& s.description == m[ids[i]].description
            },
{
    assert(table::is_list_of(ids, m.dom()));
    table::listed_is(ids, m.dom());
}

/// A workflow is found under its id, as it was loaded, and nothing is found under any other; there are
/// as many as are found.
pub proof fn workflows_are_found_by_their_ids(
    scan: Vec<LoadError>,
    files: Vec<LoadedFile>,
    r: (Registry, Vec<LoadError>),
    id: &str,
    d: Option<&WorkflowDefinition>,
    n: usize,
    fresh: Registry,
)
    requires
        call_ensures(Registry::load, (scan, files), r),
        call_ensures(Registry::lookup, (&r.0, id), d),
        call_ensures(Registry::len, (&r.0,), n),
        call_ensures(Registry::new, (), fresh),
    ensures
        fresh@.dom() == Set::<Seq<char>>::empty(),
        d is Some <==> definitions_in(files_view(files@)).dom().contains(id@),
        d is Some ==> d->0@ == definitions_in(files_view(files@))[id@] && d->0.id@ == id@,
        n == definitions_in(files_view(files@)).dom().len(),
        r.1@.len() == scan@.len() + errors_in(files_view(files@)).len(),
{
    assert(errors_view(r.1@).len() == r.1@.len());
    assert(errors_view(scan@).len() == scan@.len());
    assert(d is Some ==> d->0@.id == d->0.id@);
}

/// A listing has every workflow once, by id, with its name and its description.
pub proof fn listings_have_every_workflow(reg: Registry, r: Vec<WorkflowSummary>, i: int, j: int, id: Seq<char>)
    requires
        call_ensures(Registry::enumerate, (&reg,), r),
    ensures
        0 <= i < j < r@.len() ==> text::text_lt(r@[i].id@, r@[j].id@),
        0 <= i < r@.len() ==> reg@.dom().contains(r@[i].id@) && r@[i].name@ == reg@[r@[i].id@].name && r@[i].description@
            == reg@[r@[i].id@].description,
        reg@.dom().contains(id) ==> exists|k: int| 0 <= k < r@.len() && (#[trigger] r@[k]).id@ == id,
{
    if 0 <= i < r@.len() {
        assert(r@[i]@.id == r@[i].id@);
        assert(r@[i]@.name == r@[i].name@ && r@[i]@.description == r@[i].description@);
    }
    if 0 <= i < j < r@.len() {
        assert(text::text_lt(r@[i]@.id, r@[j]@.id));
    }
    if reg@.dom().contains(id) {
        let k = choose|k: int| 0 <= k < r@.len() && #[trigger] r@[k]@.id == id;
        assert(r@[k].id@ == id);
    }
}

/// What is seen of a file that was looked at is what became of it.
pub proof fn files_are_seen_as_they_are(f: LoadedFile, fs: Seq<LoadedFile>, es: Seq<LoadError>, i: int)
    ensures
        f@.path == f.path@,
        f.outcome matches Ok(d) ==> f@.outcome == Ok::<WorkflowDefinitionView, LoadErrorView>(d@),
        f.outcome matches Err(e) ==> f@.outcome == Err::<WorkflowDefinitionView, LoadErrorView>(e@),
        files_view(fs).len() == fs.len(),
        0 <= i < fs.len() ==> files_view(fs)[i] == fs[i]@,
        errors_view(es).len() == es.len(),
        0 <= i < es.len() ==> errors_view(es)[i] == es[i]@,
{
}

} // verus!
