//! Whether agents can be run: there has to be the program and the key. Nothing is started here;
//! the files that come into question are looked at by the caller. The program goes by a name, which
//! is not always that of its file: what is said of the program names it so.

use vstd::prelude::*;

use crate::paths;
use crate::text;

verus! {

/// What is known of a file.
#[derive(Debug, Clone, Copy, PartialEq, Eq, Structural)]
pub struct FileFacts {
    pub exists: bool,
    /// A plain file that may be executed.
    pub executable: bool,
}

/// The files that come into question for the program.
#[derive(Debug, PartialEq)]
pub enum Candidates {
    /// This one, and no other.
    Only(String),
    /// The first that may be executed, for a program with the bare name.
    FirstOf { name: String, files: Vec<String> },
}

pub enum CandidatesView {
    Only(Seq<char>),
    FirstOf { name: Seq<char>, files: Seq<Seq<char>> },
}

impl View for Candidates {
    type V = CandidatesView;

    open spec fn view(&self) -> CandidatesView {
        match *self {
            Candidates::Only(f) => CandidatesView::Only(f@),
            Candidates::FirstOf { name, files } => CandidatesView::FirstOf {
                name: name@,
                files: text::texts(files@),
            },
        }
    }
}

impl CandidatesView {
    /// How many files these are.
    pub open spec fn count(self) -> nat {
        match self {
            CandidatesView::Only(_) => 1,
            CandidatesView::FirstOf { name, files } => files.len(),
        }
    }
}

/// The file of that name in each of the directories.
pub open spec fn in_each(dirs: Seq<Seq<char>>, name: Seq<char>) -> Seq<Seq<char>> {
    dirs.map_values(|d: Seq<char>| paths::joined(d, name))
}

/// The files that come into question. An absolute path stands for itself, and a path of more than
/// one component is seen from the current directory. A bare name is looked up in the directories
/// of the search path; it is never taken as it is.
pub open spec fn candidates_for(
    program: Seq<char>,
    claude_bin: Seq<char>,
    cwd: Result<Seq<char>, Seq<char>>,
    search_path: Option<Seq<Seq<char>>>,
) -> Result<CandidatesView, Seq<char>> {
    if paths::absolute(claude_bin) {
        Ok(CandidatesView::Only(claude_bin))
    } else if paths::components(claude_bin).len() > 1 {
        match cwd {
            Ok(dir) => Ok(CandidatesView::Only(paths::joined(dir, claude_bin))),
            Err(e) => Err("could not resolve the current directory: "@ + e),
        }
    } else {
        match search_path {
            Some(dirs) => Ok(CandidatesView::FirstOf { name: claude_bin, files: in_each(dirs, claude_bin) }),
            None => Err(
                "`"@ + claude_bin
                    + "` is a bare binary name and PATH is not set -- cannot resolve it to an absolute path; set --"@
                    + program + "-bin / ORCHESTRATOR_CLAUDE_BIN to an absolute path instead"@,
            ),
        }
    }
}

/// What the search path is.
pub open spec fn search_path_view(p: Option<Vec<String>>) -> Option<Seq<Seq<char>>> {
    match p {
        Some(dirs) => Some(text::texts(dirs@)),
        None => None,
    }
}

/// The files that come into question for the program.
pub fn claude_candidates(
    program: &str,
    claude_bin: &str,
    cwd: &Result<String, String>,
    search_path: &Option<Vec<String>>,
) -> (r: Result<Candidates, String>)
    ensures
        match r {
            Ok(c) => candidates_for(program@, claude_bin@, text::text_result(*cwd), search_path_view(*search_path)) == Ok::<
                CandidatesView,
                Seq<char>,
            >(c@),
            Err(e) => candidates_for(program@, claude_bin@, text::text_result(*cwd), search_path_view(*search_path)) == Err::<
                CandidatesView,
                Seq<char>,
            >(e@),
        },
{
    if paths::is_absolute(claude_bin) {
        return Ok(Candidates::Only(claude_bin.to_owned()));
    }
    let parts = paths::components_of(claude_bin);
    assert(parts@.len() == paths::components(claude_bin@).len());
    if parts.len() > 1 {
        return match cwd {
            Ok(dir) => Ok(Candidates::Only(paths::join(dir, claude_bin))),
            Err(e) => Err(text::concat2("could not resolve the current directory: ", e)),
        };
    }
    match search_path {
        Some(dirs) => {
            let mut files: Vec<String> = Vec::new();
            let ghost all = in_each(text::texts(dirs@), claude_bin@);
            let mut i: usize = 0;
            assert(text::texts(files@) =~= all.take(0));
            while i < dirs.len()
                invariant
                    i <= dirs@.len(),
                    all == in_each(text::texts(dirs@), claude_bin@),
                    text::texts(files@) == all.take(i as int),
                decreases dirs@.len() - i,
            {
                let file = paths::join(&dirs[i], claude_bin);
                proof {
                    text::texts_push(files@, file);
                    assert(all.take(i + 1) =~= all.take(i as int).push(file@));
                }
                files.push(file);
                i = i + 1;
            }
            assert(all.take(all.len() as int) =~= all);
            Ok(Candidates::FirstOf { name: claude_bin.to_owned(), files })
        },
        None => {
            let mut words = text::concat3(
                "`",
                claude_bin,
                "` is a bare binary name and PATH is not set -- cannot resolve it to an absolute path; set --",
            );
            words.append(program);
            words.append("-bin / ORCHESTRATOR_CLAUDE_BIN to an absolute path instead");
            Err(words)
        },
    }
}

/// Whether the file can be run: it is there, and may be executed.
pub open spec fn checked(program: Seq<char>, path: Seq<char>, facts: FileFacts) -> Result<Seq<char>, Seq<char>> {
    if !facts.exists {
        Err(program + " binary does not exist at `"@ + path + "`"@)
    } else if !facts.executable {
        Err(program + " binary at `"@ + path + "` is not executable"@)
    } else {
        Ok(path)
    }
}

/// Whether the file can be run.
pub fn check_executable(program: &str, path: &str, facts: FileFacts) -> (r: Result<String, String>)
    ensures
        text::text_result(r) == checked(program@, path@, facts),
{
    if !facts.exists {
        let mut words = text::concat3(program, " binary does not exist at `", path);
        words.append("`");
        Err(words)
    } else if !facts.executable {
        let mut words = text::concat3(program, " binary at `", path);
        words.append("` is not executable");
        Err(words)
    } else {
        Ok(path.to_owned())
    }
}

/// The first of the files from `i` on that may be executed.
pub open spec fn first_executable(files: Seq<Seq<char>>, facts: Seq<FileFacts>, i: int) -> Option<Seq<char>>
    decreases files.len() - i,
{
    if i < 0 || i >= files.len() {
        None
    } else if facts[i].executable {
        Some(files[i])
    } else {
        first_executable(files, facts, i + 1)
    }
}

/// The path as seen from the current directory, where that is known.
pub open spec fn made_absolute(path: Seq<char>, cwd: Result<Seq<char>, Seq<char>>) -> Seq<char> {
    match cwd {
        Ok(dir) => paths::joined(dir, path),
        Err(_) => path,
    }
}

/// The file that is the program, by what is known of those that come into question.
pub open spec fn resolved(
    program: Seq<char>,
    c: CandidatesView,
    facts: Seq<FileFacts>,
    cwd: Result<Seq<char>, Seq<char>>,
) -> Result<Seq<char>, Seq<char>> {
    match c {
        CandidatesView::Only(path) => checked(program, path, facts[0]),
        CandidatesView::FirstOf { name, files } => match first_executable(files, facts, 0) {
            Some(path) => Ok(made_absolute(path, cwd)),
            None => Err(
                "could not resolve `"@ + name + "` against PATH -- set --"@ + program
                    + "-bin / ORCHESTRATOR_CLAUDE_BIN to an absolute path"@,
            ),
        },
    }
}

/// The file that is the program.
pub fn resolve_claude_bin(
    program: &str,
    c: &Candidates,
    facts: &Vec<FileFacts>,
    cwd: &Result<String, String>,
) -> (r: Result<String, String>)
    requires
        facts@.len() == c@.count(),
    ensures
        text::text_result(r) == resolved(program@, c@, facts@, text::text_result(*cwd)),
{
    match c {
        Candidates::Only(path) => check_executable(program, path, facts[0]),
        Candidates::FirstOf { name, files } => {
            let ghost fs = text::texts(files@);
            let mut i: usize = 0;
            while i < files.len()
                invariant
                    i <= files@.len(),
                    fs == text::texts(files@),
                    facts@.len() == files@.len(),
                    first_executable(fs, facts@, 0) == first_executable(fs, facts@, i as int),
                    c@ == (CandidatesView::FirstOf { name: name@, files: fs }),
                decreases files@.len() - i,
            {
                if facts[i].executable {
                    let path = &files[i];
                    assert(first_executable(fs, facts@, i as int) == Some(path@));
                    return match cwd {
                        Ok(dir) => Ok(paths::join(dir, path)),
                        Err(_) => Ok(path.clone()),
                    };
                }
                i = i + 1;
            }
            let mut words = text::concat3("could not resolve `", name, "` against PATH -- set --");
            words.append(program);
            words.append("-bin / ORCHESTRATOR_CLAUDE_BIN to an absolute path");
            Err(words)
        },
    }
}

/// What is wrong with the key: it is not there, or blank.
pub open spec fn key_fault(api_key: Option<Seq<char>>) -> Option<Seq<char>> {
    match api_key {
        None => Some("ANTHROPIC_API_KEY is not set -- the AI-agent handler will not be registered"@),
        Some(key) => if text::is_blank(key) {
            Some(
                "ANTHROPIC_API_KEY is set but EMPTY -- the AI-agent handler will not be registered (an empty key fails almost instantly with a login-shaped error that is easy to misdiagnose as a bad install)"@,
            )
        } else {
            None
        },
    }
}

/// The program to run agents with, or why agents cannot be run: first what is wrong with the
/// program, then what is wrong with the key.
pub open spec fn preflight(found: Result<Seq<char>, Seq<char>>, api_key: Option<Seq<char>>) -> Result<
    Seq<char>,
    Seq<char>,
> {
    match (found, key_fault(api_key)) {
        (Err(e), _) => Err(e),
        (Ok(_), Some(e)) => Err(e),
        (Ok(p), None) => Ok(p),
    }
}

/// What an optional key says.
pub open spec fn key_view(k: Option<&str>) -> Option<Seq<char>> {
    match k {
        Some(k) => Some(k@),
        None => None,
    }
}

/// The program to run agents with, or why agents cannot be run. The words never hold the key.
pub fn preflight_agent(
    program: &str,
    candidates: &Result<Candidates, String>,
    facts: &Vec<FileFacts>,
    cwd: &Result<String, String>,
    api_key: Option<&str>,
) -> (r: Result<String, String>)
    requires
        match candidates {
            Ok(c) => facts@.len() == c@.count(),
            Err(_) => true,
        },
    ensures
        ({
            let found = match candidates {
                Ok(c) => resolved(program@, c@, facts@, text::text_result(*cwd)),
                Err(e) => Err(e@),
            };
            text::text_result(r) == preflight(found, key_view(api_key))
        }),
{
    let found = match candidates {
        Ok(c) => match resolve_claude_bin(program, c, facts, cwd) {
            Ok(p) => p,
            Err(e) => return Err(e),
        },
        Err(e) => return Err(e.clone()),
    };
    match api_key {
        None => Err("ANTHROPIC_API_KEY is not set -- the AI-agent handler will not be registered".to_owned()),
        Some(key) => if text::blank(key) {
            Err(
                "ANTHROPIC_API_KEY is set but EMPTY -- the AI-agent handler will not be registered (an empty key fails almost instantly with a login-shaped error that is easy to misdiagnose as a bad install)".to_owned(),
            )
        } else {
            Ok(found)
        },
    }
}

// ---------------------------------------------------------------------------
// What holds of it all

/// A program that is run is given by an absolute path, where the current directory is one.
pub proof fn programs_are_absolute(
    program: Seq<char>,
    claude_bin: Seq<char>,
    dir: Seq<char>,
    search_path: Option<Seq<Seq<char>>>,
    facts: Seq<FileFacts>,
)
    requires
        paths::absolute(dir),
        candidates_for(program, claude_bin, Ok(dir), search_path) is Ok,
        resolved(program, candidates_for(program, claude_bin, Ok(dir), search_path)->Ok_0, facts, Ok(dir)) is Ok,
    ensures
        paths::absolute(resolved(program, candidates_for(program, claude_bin, Ok(dir), search_path)->Ok_0, facts, Ok(dir))->Ok_0),
{
}

/// Two keys that are not blank make no difference to what is said.
pub proof fn keys_stay_secret(found: Result<Seq<char>, Seq<char>>, a: Seq<char>, b: Seq<char>)
    requires
        text::is_blank(a) == text::is_blank(b),
    ensures
        preflight(found, Some(a)) == preflight(found, Some(b)),
{
}

/// An absolute path is the program itself; a path of several components is seen from the current
/// directory; a bare name is looked for in each directory of the search path, in their order.
pub proof fn programs_are_looked_for(
    program: &str,
    bin: &str,
    cwd: Result<String, String>,
    search_path: Option<Vec<String>>,
    r: Result<Candidates, String>,
    i: int,
)
    requires
        call_ensures(claude_candidates, (program, bin, &cwd, &search_path), r),
    ensures
        paths::absolute(bin@) ==> (r matches Ok(Candidates::Only(p)) && p@ == bin@),
        !paths::absolute(bin@) && paths::components(bin@).len() > 1 ==> match cwd {
            Ok(dir) => r matches Ok(Candidates::Only(p)) && p@ == paths::joined(dir@, bin@),
            Err(e) => r matches Err(w) && w@ == "could not resolve the current directory: "@ + e@,
        },
        !paths::absolute(bin@) && paths::components(bin@).len() <= 1 ==> match search_path {
            Some(dirs) => r matches Ok(Candidates::FirstOf { name, files }) && name@ == bin@ && files@.len() == dirs@.len()
                && (0 <= i < dirs@.len() ==> files@[i]@ == paths::joined(dirs@[i]@, bin@)),
            None => r matches Err(w) && w@ == "`"@ + bin@
                + "` is a bare binary name and PATH is not set -- cannot resolve it to an absolute path; set --"@
                + program@ + "-bin / ORCHESTRATOR_CLAUDE_BIN to an absolute path instead"@,
        },
{
    if !paths::absolute(bin@) && paths::components(bin@).len() <= 1 && search_path is Some {
        let dirs = search_path->0@;
        let files = r->Ok_0->files@;
        assert(text::texts(files) == in_each(text::texts(dirs), bin@));
        assert(text::texts(files).len() == files.len());
        assert(text::texts(dirs).len() == dirs.len());
        if 0 <= i < dirs.len() {
            assert(text::texts(files)[i] == files[i]@);
            assert(text::texts(dirs)[i] == dirs[i]@);
        }
    }
}

proof fn first_executable_is(files: Seq<Seq<char>>, facts: Seq<FileFacts>, from: int, k: int)
    requires
        0 <= from <= k < files.len(),
        forall|j: int| from <= j < k ==> !(#[trigger] facts[j]).executable,
        facts[k].executable,
    ensures
        first_executable(files, facts, from) == Some(files[k]),
    decreases k - from,
{
    if from < k {
        assert(!facts[from].executable);
        first_executable_is(files, facts, from + 1, k);
    }
}

proof fn none_is_executable(files: Seq<Seq<char>>, facts: Seq<FileFacts>, from: int)
    requires
        0 <= from <= files.len(),
        forall|j: int| from <= j < files.len() ==> !(#[trigger] facts[j]).executable,
    ensures
        first_executable(files, facts, from) is None,
    decreases files.len() - from,
{
    if from < files.len() {
        none_is_executable(files, facts, from + 1);
    }
}

/// The one file that comes into question is taken where it is there and may be executed. Of several the
/// first is taken that may be executed, as seen from the current directory, and none where none may.
pub proof fn the_first_that_can_be_run_is_taken(
    program: Seq<char>,
    path: Seq<char>,
    name: Seq<char>,
    files: Seq<Seq<char>>,
    facts: Seq<FileFacts>,
    cwd: Seq<char>,
    k: int,
)
    requires
        facts.len() > 0,
    ensures
        resolved(program, CandidatesView::Only(path), facts, Ok(cwd)) is Ok <==> facts[0].exists && facts[0].executable,
        facts[0].exists && facts[0].executable ==> resolved(program, CandidatesView::Only(path), facts, Ok(cwd)) == Ok::<
            Seq<char>,
            Seq<char>,
        >(path),
        !facts[0].exists ==> resolved(program, CandidatesView::Only(path), facts, Ok(cwd)) == Err::<Seq<char>, Seq<char>>(
            program + " binary does not exist at `"@ + path + "`"@,
        ),
        facts[0].exists && !facts[0].executable ==> resolved(program, CandidatesView::Only(path), facts, Ok(cwd)) == Err::<
            Seq<char>,
            Seq<char>,
        >(program + " binary at `"@ + path + "` is not executable"@),
        0 <= k < files.len() && facts[k].executable && (forall|j: int| 0 <= j < k ==> !(#[trigger] facts[j]).executable)
            ==> resolved(program, CandidatesView::FirstOf { name, files }, facts, Ok(cwd)) == Ok::<Seq<char>, Seq<char>>(
            paths::joined(cwd, files[k]),
        ) && resolved(program, CandidatesView::FirstOf { name, files }, facts, Err(cwd)) == Ok::<Seq<char>, Seq<char>>(
            files[k],
        ),
        (forall|j: int| 0 <= j < files.len() ==> !(#[trigger] facts[j]).executable) ==> resolved(
            program,
            CandidatesView::FirstOf { name, files },
            facts,
            Ok(cwd),
        ) == Err::<Seq<char>, Seq<char>>(
            "could not resolve `"@ + name + "` against PATH -- set --"@ + program
                + "-bin / ORCHESTRATOR_CLAUDE_BIN to an absolute path"@,
        ),
{
    if 0 <= k < files.len() && facts[k].executable && (forall|j: int| 0 <= j < k ==> !(#[trigger] facts[j]).executable) {
        first_executable_is(files, facts, 0, k);
    }
    if forall|j: int| 0 <= j < files.len() ==> !(#[trigger] facts[j]).executable {
        none_is_executable(files, facts, 0);
    }
}

/// Agents can be run exactly where the program was found and there is a key that is not blank. What is
/// wrong with the program is said before what is wrong with the key.
pub proof fn agents_need_a_program_and_a_key(
    program: &str,
    candidates: Result<Candidates, String>,
    facts: Vec<FileFacts>,
    cwd: Result<String, String>,
    key: Option<&str>,
    r: Result<String, String>,
)
    requires
        call_ensures(preflight_agent, (program, &candidates, &facts, &cwd, key), r),
    ensures
        candidates matches Err(e) ==> (r matches Err(w) && w@ == e@),
        candidates matches Ok(c) ==> match resolved(program@, c@, facts@, text::text_result(cwd)) {
            Err(e) => r matches Err(w) && w@ == e,
            Ok(p) => match key {
                None => r matches Err(w) && w@
                    == "ANTHROPIC_API_KEY is not set -- the AI-agent handler will not be registered"@,
                Some(k) => if text::is_blank(k@) {
                    r matches Err(w) && w@
                        == "ANTHROPIC_API_KEY is set but EMPTY -- the AI-agent handler will not be registered (an empty key fails almost instantly with a login-shaped error that is easy to misdiagnose as a bad install)"@
                } else {
                    r matches Ok(w) && w@ == p
                },
            },
        },
{
}

} // verus!
