//! Whether agents can be run.

use orchestrator::startup::{check_executable, claude_candidates, preflight_agent, Candidates, FileFacts};

const RUNS: FileFacts = FileFacts { exists: true, executable: true };
const PLAIN: FileFacts = FileFacts { exists: true, executable: false };
const GONE: FileFacts = FileFacts { exists: false, executable: false };

fn cwd() -> Result<String, String> {
    Ok("/work".to_string())
}

fn preflight(
    program: &str,
    search_path: Option<Vec<String>>,
    facts: Vec<FileFacts>,
    key: Option<&str>,
) -> Result<String, String> {
    let candidates = claude_candidates("runner", program, &cwd(), &search_path);
    preflight_agent("runner", &candidates, &facts, &cwd(), key)
}

#[test]
fn an_absolute_path_stands_for_itself() {
    assert_eq!(preflight("/bin/x", None, vec![RUNS], Some("k")), Ok("/bin/x".to_string()));
    assert_eq!(
        preflight("/bin/x", None, vec![GONE], Some("k")),
        Err("runner binary does not exist at `/bin/x`".to_string())
    );
    assert_eq!(check_executable("runner", "/x", PLAIN), Err("runner binary at `/x` is not executable".to_string()));
}

#[test]
fn a_path_with_a_slash_is_seen_from_the_current_directory() {
    assert_eq!(preflight("./x", None, vec![RUNS], Some("k")), Ok("/work/./x".to_string()));
    assert_eq!(preflight("bin/x", None, vec![RUNS], Some("k")), Ok("/work/bin/x".to_string()));
    assert_eq!(
        claude_candidates("runner", "bin/x", &Err("gone".to_string()), &None),
        Err("could not resolve the current directory: gone".to_string())
    );
}

#[test]
fn a_bare_name_is_looked_up() {
    let path = Some(vec!["/a".to_string(), "b".to_string(), "/c".to_string()]);
    assert_eq!(
        claude_candidates("runner", "x", &cwd(), &path),
        Ok(Candidates::FirstOf {
            name: "x".to_string(),
            files: vec!["/a/x".to_string(), "b/x".to_string(), "/c/x".to_string()]
        })
    );
    assert_eq!(preflight("x", path.clone(), vec![PLAIN, RUNS, RUNS], Some("k")), Ok("/work/b/x".to_string()));
    assert_eq!(preflight("x", path.clone(), vec![PLAIN, GONE, RUNS], Some("k")), Ok("/c/x".to_string()));
    assert_eq!(
        preflight("x", path, vec![PLAIN, GONE, GONE], Some("k")),
        Err(
            "could not resolve `x` against PATH -- set --runner-bin / ORCHESTRATOR_CLAUDE_BIN to an absolute path"
                .to_string()
        )
    );
    assert_eq!(
        preflight("x", None, Vec::new(), Some("k")),
        Err("`x` is a bare binary name and PATH is not set -- cannot resolve it to an absolute path; set \
             --runner-bin / ORCHESTRATOR_CLAUDE_BIN to an absolute path instead"
            .to_string())
    );
}

#[test]
fn the_key_has_to_be_there_and_is_never_told() {
    let unset = preflight("/bin/x", None, vec![RUNS], None).expect_err("no key");
    assert_eq!(unset, "ANTHROPIC_API_KEY is not set -- the AI-agent handler will not be registered");
    let empty = preflight("/bin/x", None, vec![RUNS], Some("  ")).expect_err("blank key");
    assert!(empty.starts_with("ANTHROPIC_API_KEY is set but EMPTY"));
    let missing = preflight("/bin/x", None, vec![GONE], None).expect_err("the program comes first");
    assert!(missing.contains("/bin/x"));
}
