//! Routing utterances to workflows. Embeddings and scores are single-precision numbers; the
//! library carries their bits.

use orchestrator::definition::{ParameterSpec, ParameterType, ServiceMode, ServiceSpec, WorkflowDefinition};
use orchestrator::error::RouterError;
use orchestrator::json::serde_text::read_json;
use orchestrator::json::Json;
use orchestrator::registry::{LoadedFile, Registry};
use orchestrator::router::cache::{EmbeddingCache, SyncStats};
use orchestrator::router::collision::{find_collision, IntentCollision, COLLISION_THRESHOLD};
use orchestrator::router::confirm_tier::{confirm_tier, ConfirmTier};
use orchestrator::router::extraction::{check_extraction, extraction_request};
use orchestrator::router::ollama_client::{
    classify_send_error, embed_endpoint, embed_request, generate_endpoint, generate_request, generated_in,
    parse_generate_envelope, read_error_body, refused, retries_embed, text_in_envelope,
};
use orchestrator::router::schema::build_param_schema;
use orchestrator::router::threshold::{
    above, best_index, clears_threshold, CONFIRM_REQUIRED_MATCH_THRESHOLD, MATCH_THRESHOLD,
};
use orchestrator::router::{
    candidates, collision_among, decide, extracted, screen, unfit_words, ProbeKind, RouteStep, Router, Score, Search,
    SearchAsk,
};
use orchestrator::table::Table;

fn json(text: &str) -> Json {
    read_json(text).expect("the text is JSON")
}

fn bits(v: &[f32]) -> Vec<u32> {
    v.iter().map(|x| x.to_bits()).collect()
}

fn cosine_similarity(a: &[f32], b: &[f32]) -> Option<f32> {
    if a.len() != b.len() {
        return None;
    }
    let dot: f32 = a.iter().zip(b.iter()).map(|(x, y)| x * y).sum();
    let norm_a: f32 = a.iter().map(|x| x * x).sum::<f32>().sqrt();
    let norm_b: f32 = b.iter().map(|x| x * x).sum::<f32>().sqrt();
    if norm_a == 0.0 || norm_b == 0.0 {
        return None;
    }
    let score = dot / (norm_a * norm_b);
    if score.is_finite() {
        Some(score)
    } else {
        None
    }
}

// ---------------------------------------------------------------------------
// Scores

#[test]
fn collision_threshold_equals_match_threshold() {
    assert_eq!(COLLISION_THRESHOLD, MATCH_THRESHOLD);
}

#[test]
fn confirm_required_threshold_is_never_below_match_threshold() {
    assert!(
        f32::from_bits(CONFIRM_REQUIRED_MATCH_THRESHOLD) >= f32::from_bits(MATCH_THRESHOLD),
        "a confirmation-required workflow must clear a stricter bar than a freely-routable one, never a laxer one"
    );
}

#[test]
fn the_thresholds_are_the_bits_of_their_numbers() {
    assert_eq!(f32::from_bits(MATCH_THRESHOLD), 0.60);
    assert_eq!(f32::from_bits(CONFIRM_REQUIRED_MATCH_THRESHOLD), 0.70);
    assert_eq!(0.60_f32.to_string(), "0.6");
    assert_eq!(0.70_f32.to_string(), "0.7");
}

#[test]
fn scores_are_ordered_as_their_numbers_are() {
    let numbers = [
        f32::NEG_INFINITY,
        -1.0,
        -0.6,
        -0.0,
        0.0,
        f32::MIN_POSITIVE,
        0.6,
        0.7,
        1.0,
        f32::INFINITY,
        f32::NAN,
    ];
    for a in numbers {
        for b in numbers {
            assert_eq!(above(a.to_bits(), b.to_bits()), a > b, "{a} > {b}");
            assert_eq!(clears_threshold(a.to_bits(), b.to_bits()), a >= b, "{a} >= {b}");
        }
    }
}

#[test]
fn a_score_exactly_equal_to_the_match_threshold_clears_it() {
    assert!(clears_threshold(MATCH_THRESHOLD, MATCH_THRESHOLD));
}

#[test]
fn a_score_one_f32_step_below_the_match_threshold_does_not_clear_it() {
    let just_below = f32::from_bits(f32::from_bits(MATCH_THRESHOLD).to_bits() - 1);
    assert!(!clears_threshold(just_below.to_bits(), MATCH_THRESHOLD));
}

#[test]
fn a_score_exactly_equal_to_the_confirm_required_threshold_clears_it() {
    assert!(clears_threshold(CONFIRM_REQUIRED_MATCH_THRESHOLD, CONFIRM_REQUIRED_MATCH_THRESHOLD));
}

#[test]
fn a_score_one_f32_step_below_the_confirm_required_threshold_does_not_clear_it() {
    let just_below = f32::from_bits(f32::from_bits(CONFIRM_REQUIRED_MATCH_THRESHOLD).to_bits() - 1);
    assert!(!clears_threshold(just_below.to_bits(), CONFIRM_REQUIRED_MATCH_THRESHOLD));
}

#[test]
fn the_first_of_the_best_scores_wins() {
    let s = |x: f32| Some(x.to_bits());
    assert_eq!(best_index(&vec![None, s(0.2), s(0.9), None, s(0.9)]), Some(2));
    assert_eq!(best_index(&vec![s(-0.5), s(-0.7)]), Some(0));
    assert_eq!(best_index(&vec![None, None]), None);
}

// ---------------------------------------------------------------------------
// Collisions

fn collide(
    probe: &[f32],
    candidates: &[(String, String, Vec<f32>)],
    threshold: u32,
) -> Option<IntentCollision> {
    let pairs: Vec<(String, String)> = candidates.iter().map(|c| (c.0.clone(), c.1.clone())).collect();
    let scores: Vec<Option<u32>> =
        candidates.iter().map(|c| cosine_similarity(probe, &c.2).map(|s| s.to_bits())).collect();
    find_collision(&pairs, &scores, threshold)
}

fn candidate(id: &str, intent: &str, embedding: Vec<f32>) -> (String, String, Vec<f32>) {
    (id.to_string(), intent.to_string(), embedding)
}

#[test]
fn empty_candidate_list_returns_none() {
    assert_eq!(collide(&[1.0, 0.0], &[], COLLISION_THRESHOLD), None);
}

#[test]
fn every_candidate_strictly_below_threshold_returns_none() {
    let candidates = vec![
        candidate("aaa_wf", "some other intent", vec![0.0, 1.0, 0.0]),
        candidate("bbb_wf", "yet another intent", vec![0.0, 0.0, 1.0]),
    ];
    assert_eq!(collide(&[1.0, 0.0, 0.0], &candidates, COLLISION_THRESHOLD), None);
}

#[test]
fn returns_the_highest_scoring_candidate_when_two_are_above_threshold() {
    let candidates = vec![
        candidate("close_wf", "close intent", vec![1.0, 0.05, 0.0]),
        candidate("closer_wf", "closer intent", vec![1.0, 0.0, 0.0]),
    ];
    let result = collide(&[1.0, 0.0, 0.0], &candidates, COLLISION_THRESHOLD)
        .expect("expected a collision above threshold");
    assert_eq!(result.workflow_id, "closer_wf");
    assert_eq!(result.intent, "closer intent");
}

#[test]
fn a_score_exactly_at_the_threshold_is_a_collision_inclusive() {
    let candidates = vec![candidate("wf", "intent", vec![1.0, 0.0])];
    let result = collide(&[1.0, 0.0], &candidates, 1.0_f32.to_bits());
    assert_eq!(
        result,
        Some(IntentCollision {
            workflow_id: "wf".to_string(),
            intent: "intent".to_string(),
            score: 1.0_f32.to_bits()
        }),
        "expected a score exactly equal to the threshold to be reported as a collision (inclusive)"
    );
}

#[test]
fn a_score_one_f32_step_below_threshold_is_not_a_collision() {
    let candidates = vec![candidate("wf", "intent", vec![1.0, 0.0])];
    let just_above_the_score = f32::from_bits(1.0_f32.to_bits() + 1);
    let result = collide(&[1.0, 0.0], &candidates, just_above_the_score.to_bits());
    assert_eq!(result, None, "expected a score one f32 step below the threshold to not collide");
}

#[test]
fn a_dimension_mismatched_candidate_is_skipped_and_a_valid_winner_still_returns() {
    let candidates = vec![
        candidate("mismatched_wf", "mismatched intent", vec![1.0, 0.0, 0.0]),
        candidate("valid_wf", "valid intent", vec![1.0, 0.0]),
    ];
    let result = collide(&[1.0, 0.0], &candidates, COLLISION_THRESHOLD)
        .expect("expected the dimension-mismatched candidate to be skipped, not panic");
    assert_eq!(result.workflow_id, "valid_wf");
}

#[test]
fn the_winning_candidates_own_intent_text_is_returned() {
    let candidates = vec![candidate("wf_a", "the winning intent text", vec![1.0, 0.0])];
    let result = collide(&[1.0, 0.0], &candidates, COLLISION_THRESHOLD).expect("expected a collision");
    assert_eq!(result.intent, "the winning intent text");
}

#[test]
fn an_exact_tie_goes_to_the_first_lowest_id_candidate() {
    let candidates = vec![
        candidate("aaa_wf", "identical intent", vec![1.0, 0.0]),
        candidate("bbb_wf", "identical intent", vec![1.0, 0.0]),
    ];
    let result = collide(&[1.0, 0.0], &candidates, COLLISION_THRESHOLD).expect("expected a collision");
    assert_eq!(result.workflow_id, "aaa_wf", "expected the FIRST (lowest-id) candidate to win an exact tie");
}

// ---------------------------------------------------------------------------
// Tiers

fn stub_definition(type_: Option<&str>, handler: &str) -> WorkflowDefinition {
    WorkflowDefinition {
        id: "stub".to_string(),
        name: "Stub".to_string(),
        description: String::new(),
        parameters: Table::new(),
        service: ServiceSpec {
            type_: type_.map(|s| s.to_string()),
            handler: handler.to_string(),
            mode: ServiceMode::Sync,
            command: None,
            args: Vec::new(),
            agent: None,
        },
        source_path: "stub.md".to_string(),
        intent: String::new(),
        triggers: Vec::new(),
    }
}

#[test]
fn agent_type_always_requires_confirmation() {
    assert_eq!(confirm_tier(&stub_definition(Some("agent"), "agent.runner")), ConfirmTier::ConfirmRequired);
}

#[test]
fn action_type_with_a_benign_handler_routes_freely() {
    assert_eq!(confirm_tier(&stub_definition(Some("action"), "action.immediate")), ConfirmTier::RouteFreely);
}

#[test]
fn integration_type_with_a_benign_handler_routes_freely() {
    assert_eq!(
        confirm_tier(&stub_definition(Some("integration"), "process.calendar_today")),
        ConfirmTier::RouteFreely
    );
}

#[test]
fn an_absent_service_type_fails_closed() {
    assert_eq!(confirm_tier(&stub_definition(None, "demo.handler")), ConfirmTier::ConfirmRequired);
}

#[test]
fn an_empty_or_whitespace_only_service_type_fails_closed() {
    assert_eq!(confirm_tier(&stub_definition(Some(""), "demo.handler")), ConfirmTier::ConfirmRequired);
    assert_eq!(confirm_tier(&stub_definition(Some("   "), "demo.handler")), ConfirmTier::ConfirmRequired);
}

#[test]
fn an_unrecognised_service_type_fails_closed() {
    assert_eq!(
        confirm_tier(&stub_definition(Some("experimental"), "demo.handler")),
        ConfirmTier::ConfirmRequired
    );
}

#[test]
fn service_type_comparison_is_case_and_whitespace_normalised() {
    assert_eq!(confirm_tier(&stub_definition(Some("ACTION"), "action.immediate")), ConfirmTier::RouteFreely);
    assert_eq!(confirm_tier(&stub_definition(Some(" action "), "action.immediate")), ConfirmTier::RouteFreely);
}

#[test]
fn a_destructive_handler_overrides_an_otherwise_benign_type() {
    assert_eq!(
        confirm_tier(&stub_definition(Some("action"), "workflow.delete_thing")),
        ConfirmTier::ConfirmRequired
    );
}

#[test]
fn every_destructive_word_counts_in_any_case() {
    for word in ["Delete", "DESTROY", "purge", "remove", "wipe", "truncate", "uninstall", "dropTable"] {
        let handler = format!("x.{word}");
        assert_eq!(confirm_tier(&stub_definition(Some("action"), &handler)), ConfirmTier::ConfirmRequired);
    }
}

#[test]
fn as_wire_str_returns_the_exact_snake_case_strings() {
    assert_eq!(ConfirmTier::RouteFreely.as_wire_str(), "route_freely");
    assert_eq!(ConfirmTier::ConfirmRequired.as_wire_str(), "confirm_required");
}

// ---------------------------------------------------------------------------
// Schemas

fn spec(type_: ParameterType, required: bool, description: Option<&str>) -> ParameterSpec {
    ParameterSpec { type_, description: description.map(|d| d.to_string()), required }
}

fn at<'a>(v: &'a Json, path: &[&str]) -> &'a Json {
    let mut v = v;
    for k in path {
        v = v.get(k).expect("the key is there");
    }
    v
}

fn keys(v: &Json) -> Vec<String> {
    match v {
        Json::Object(t) => (0..t.len()).map(|i| t.key_at(i).clone()).collect(),
        _ => panic!("expected an object"),
    }
}

fn texts(v: &Json) -> Vec<String> {
    v.as_array().expect("an array").iter().map(|x| x.as_str().expect("a string").clone()).collect()
}

fn string(s: &str) -> Json {
    Json::Str(s.to_string())
}

#[test]
fn maps_string_int_and_bool_to_their_json_schema_type_names() {
    let mut params = Table::new();
    params.insert("name".to_string(), spec(ParameterType::String, false, None));
    params.insert("count".to_string(), spec(ParameterType::Int, false, None));
    params.insert("enabled".to_string(), spec(ParameterType::Bool, false, None));

    let schema = build_param_schema(&params);

    assert_eq!(*at(&schema, &["properties", "name", "type"]), string("string"));
    assert_eq!(*at(&schema, &["properties", "count", "type"]), string("integer"));
    assert_eq!(*at(&schema, &["properties", "enabled", "type"]), string("boolean"));
}

#[test]
fn only_required_parameters_appear_in_the_required_array() {
    let mut params = Table::new();
    params.insert("required_one".to_string(), spec(ParameterType::String, true, None));
    params.insert("optional_one".to_string(), spec(ParameterType::String, false, None));

    let schema = build_param_schema(&params);
    assert_eq!(texts(at(&schema, &["required"])), vec!["required_one"]);
}

#[test]
fn additional_properties_is_always_false() {
    let schema = build_param_schema(&Table::new());
    assert_eq!(*at(&schema, &["additionalProperties"]), Json::Bool(false));
}

#[test]
fn a_description_when_present_is_carried_into_the_property() {
    let mut params = Table::new();
    params.insert("duration_minutes".to_string(), spec(ParameterType::Int, true, Some("how many minutes")));

    let schema = build_param_schema(&params);
    assert_eq!(*at(&schema, &["properties", "duration_minutes", "description"]), string("how many minutes"));
}

#[test]
fn an_absent_description_never_adds_the_key() {
    let mut params = Table::new();
    params.insert("plain".to_string(), spec(ParameterType::String, false, None));

    let schema = build_param_schema(&Table::new());
    assert!(keys(at(&schema, &["properties"])).is_empty());

    let schema_with_plain = build_param_schema(&params);
    assert!(!keys(at(&schema_with_plain, &["properties", "plain"])).contains(&"description".to_string()));
}

#[test]
fn properties_and_required_are_emitted_in_sorted_parameter_name_order() {
    let mut params = Table::new();
    params.insert("zeta".to_string(), spec(ParameterType::String, true, None));
    params.insert("alpha".to_string(), spec(ParameterType::String, true, None));
    params.insert("mid".to_string(), spec(ParameterType::String, true, None));

    let schema = build_param_schema(&params);
    assert_eq!(keys(at(&schema, &["properties"])), vec!["alpha", "mid", "zeta"]);
    assert_eq!(texts(at(&schema, &["required"])), vec!["alpha", "mid", "zeta"]);
}

#[test]
fn calling_build_param_schema_twice_on_the_same_input_produces_byte_identical_output() {
    let mut params = Table::new();
    params.insert("b_param".to_string(), spec(ParameterType::Int, true, Some("second")));
    params.insert("a_param".to_string(), spec(ParameterType::String, false, Some("first")));

    let first = build_param_schema(&params);
    let second = build_param_schema(&params);

    assert_eq!(first, second, "expected byte-identical schema bytes across repeated calls");
}

#[test]
fn an_empty_parameter_map_still_produces_a_well_formed_object_schema() {
    let schema = build_param_schema(&Table::new());
    assert_eq!(*at(&schema, &["type"]), string("object"));
    assert!(keys(at(&schema, &["properties"])).is_empty());
    assert!(texts(at(&schema, &["required"])).is_empty());
    assert_eq!(*at(&schema, &["additionalProperties"]), Json::Bool(false));
}

// ---------------------------------------------------------------------------
// The embedding cache

fn pair(id: &str, intent: &str) -> (String, String) {
    (id.to_string(), intent.to_string())
}

fn sync(cache: &mut EmbeddingCache, wanted: Vec<(String, String)>) -> SyncStats {
    let plan = cache.plan_sync(&wanted);
    let embeddings: Vec<Vec<u32>> = plan.intents.iter().map(|s| bits(&[s.len() as f32])).collect();
    cache.apply_sync(plan, embeddings, "nomic-embed-text").expect("sync should succeed")
}

#[test]
fn first_sync_recomputes_every_wanted_entry() {
    let mut cache = EmbeddingCache::new();
    let stats = sync(&mut cache, vec![pair("a", "check calendar"), pair("b", "set a timer")]);

    assert_eq!(stats, SyncStats { recomputed: 2, reused: 0, evicted: 0 });
    assert!(cache.lookup("a").is_some());
    assert_eq!(cache.lookup("b"), Some(&bits(&[11.0])));
}

#[test]
fn second_sync_against_the_same_pairs_reuses_everything() {
    let mut cache = EmbeddingCache::new();
    sync(&mut cache, vec![pair("a", "check calendar"), pair("b", "set a timer")]);
    let stats = sync(&mut cache, vec![pair("a", "check calendar"), pair("b", "set a timer")]);

    assert_eq!(stats, SyncStats { recomputed: 0, reused: 2, evicted: 0 });
}

#[test]
fn a_changed_intent_re_embeds_only_that_one_workflow() {
    let mut cache = EmbeddingCache::new();
    sync(&mut cache, vec![pair("a", "check calendar"), pair("b", "set a timer")]);
    let stats = sync(&mut cache, vec![pair("a", "check calendar events today"), pair("b", "set a timer")]);

    assert_eq!(stats, SyncStats { recomputed: 1, reused: 1, evicted: 0 });
}

#[test]
fn a_removed_workflow_id_is_evicted_and_no_longer_looked_up() {
    let mut cache = EmbeddingCache::new();
    sync(&mut cache, vec![pair("a", "check calendar"), pair("b", "set a timer")]);
    assert!(cache.lookup("b").is_some());

    let stats = sync(&mut cache, vec![pair("a", "check calendar")]);

    assert_eq!(stats, SyncStats { recomputed: 0, reused: 1, evicted: 1 });
    assert!(cache.lookup("b").is_none(), "expected the evicted id to no longer be looked up");
}

#[test]
fn embeddings_have_to_be_as_many_as_intents() {
    let mut cache = EmbeddingCache::new();
    let plan = cache.plan_sync(&vec![pair("a", "x"), pair("b", "y")]);
    assert_eq!(
        cache.apply_sync(plan, vec![bits(&[1.0])], "m"),
        Err(RouterError::MalformedResponse {
            endpoint: "m: /api/embed".to_string(),
            detail: "expected 2 embeddings for the batched corpus sync, got 1".to_string()
        })
    );
    assert!(cache.lookup("a").is_none());
}

// ---------------------------------------------------------------------------
// Ollama

#[test]
fn a_valid_envelope_with_a_json_encoded_response_string_parses_to_the_inner_value() {
    let raw = r#"{"response": "{\"duration_minutes\": 10}", "done": true}"#;

    let value = parse_generate_envelope(raw, "http://x/api/generate").expect("expected a parsed value");

    assert_eq!(value, json(r#"{"duration_minutes": 10}"#));
}

#[test]
fn a_response_field_that_is_a_nested_object_rather_than_a_string_fails_as_malformed_response() {
    let raw = r#"{"response": {"duration_minutes": 10}, "done": true}"#;

    let err = parse_generate_envelope(raw, "http://x/api/generate")
        .expect_err("a nested-object response field must fail, never silently succeed");

    assert!(matches!(err, RouterError::MalformedResponse { .. }));
}

#[test]
fn a_response_string_that_is_not_valid_json_fails_as_malformed_response() {
    let raw = r#"{"response": "not valid json at all", "done": true}"#;

    let err = parse_generate_envelope(raw, "http://x/api/generate")
        .expect_err("an unparseable response string must fail, never silently succeed");

    assert!(matches!(err, RouterError::MalformedResponse { .. }));
}

#[test]
fn a_response_string_that_parses_to_a_json_array_is_not_rejected_at_this_layer() {
    let raw = r#"{"response": "[1, 2, 3]", "done": true}"#;

    let value = parse_generate_envelope(raw, "http://x/api/generate").expect("array parses fine here");

    assert!(value.as_array().is_some());
}

#[test]
fn a_completely_malformed_envelope_fails_the_first_parse() {
    let raw = "not even json";

    let err = parse_generate_envelope(raw, "http://x/api/generate")
        .expect_err("a malformed envelope must fail at the first parse");

    assert!(matches!(err, RouterError::MalformedResponse { .. }));
}

#[test]
fn an_envelope_may_be_an_array_of_its_two_parts() {
    assert_eq!(text_in_envelope(&json(r#"["x", true]"#)).as_deref(), Some("x"));
    assert_eq!(text_in_envelope(&json(r#"["x"]"#)), None);
    assert_eq!(text_in_envelope(&json(r#"{"response": "x"}"#)), None);
}

#[test]
fn requests_keep_instructions_and_utterance_apart_and_models_alive() {
    assert_eq!(embed_endpoint("http://h"), "http://h/api/embed");
    assert_eq!(generate_endpoint("http://h"), "http://h/api/generate");
    assert_eq!(
        embed_request("m", &vec!["a".to_string()]),
        json(r#"{"model": "m", "input": ["a"], "keep_alive": "30m"}"#)
    );
    assert_eq!(
        generate_request("m", "sys", "prm", &json(r#"{"type": "object"}"#)),
        json(
            r#"{"model": "m", "system": "sys", "prompt": "prm", "stream": false, "format": {"type": "object"},
                "options": {"temperature": 0.0, "seed": 0}, "keep_alive": "30m"}"#
        )
    );
}

#[test]
fn failures_are_told_apart() {
    let e = |c, t| classify_send_error(c, t, "why", "http://h", "http://h/api/embed");
    assert_eq!(
        e(true, true),
        RouterError::OllamaUnreachable { base_url: "http://h".to_string(), detail: "why".to_string() }
    );
    let timeout = RouterError::Timeout { endpoint: "http://h/api/embed".to_string(), seconds: 10 };
    assert_eq!(e(false, true), timeout);
    assert!(retries_embed(1, &timeout));
    assert!(!retries_embed(2, &timeout));
    assert!(!retries_embed(1, &e(true, false)));
    assert_eq!(timeout.message(), "http://h/api/embed: no answer within 10 seconds");
    assert_eq!(e(true, false).message(), "cannot reach Ollama at http://h: why");
    assert_eq!(e(false, false).message(), "http://h/api/embed: malformed response: why");
}

#[test]
fn answers_that_are_no_success_are_refused() {
    let body = Some(r#"{"error": "model \"m\" not found"}"#.to_string());
    let missing = refused("m", "e", 404, "404 Not Found", &body).expect("refused");
    assert_eq!(
        missing,
        RouterError::ModelNotFound { model: "m".to_string(), detail: "model \"m\" not found".to_string() }
    );
    assert_eq!(missing.message(), "model `m` not found: model \"m\" not found");
    assert_eq!(
        refused("m", "e", 404, "404 Not Found", &None),
        Some(RouterError::ModelNotFound { model: "m".to_string(), detail: "model not found".to_string() })
    );
    assert_eq!(
        refused("m", "e", 500, "500 Internal Server Error", &Some("oops".to_string())),
        Some(RouterError::MalformedResponse {
            endpoint: "e".to_string(),
            detail: "HTTP 500 Internal Server Error: oops".to_string()
        })
    );
    assert_eq!(refused("m", "e", 200, "200 OK", &None), None);
    assert_eq!(read_error_body("no JSON"), None);
}

// ---------------------------------------------------------------------------
// Routing

fn workflow(id: &str, intent: &str, type_: &str) -> WorkflowDefinition {
    let mut d = stub_definition(Some(type_), "action.immediate");
    d.id = id.to_string();
    d.intent = intent.to_string();
    d
}

fn registry(definitions: Vec<WorkflowDefinition>) -> Registry {
    let files = definitions
        .into_iter()
        .map(|d| LoadedFile { path: d.source_path.clone(), outcome: Ok(d) })
        .collect();
    Registry::load(Vec::new(), files).0
}

/// Answers a search from a table of embeddings, and gives the search when it waits for scores.
fn search(
    router: &mut Router,
    kind: ProbeKind,
    probe: &str,
    registry: &Registry,
    known: &[(&str, [f32; 2])],
    calls: &mut usize,
) -> (Search, Vec<Option<f32>>) {
    let embed = |inputs: &Vec<String>| -> Vec<Vec<u32>> {
        inputs
            .iter()
            .map(|t| bits(&known.iter().find(|k| k.0 == t).expect("a known text").1))
            .collect()
    };
    let (mut search, mut inputs) = router.begin_search(kind, probe, registry);
    loop {
        *calls += 1;
        let (next, ask) = router.embedded(search, Ok(embed(&inputs))).expect("embeddings are there");
        search = next;
        match ask {
            SearchAsk::Embed(more) => inputs = more,
            SearchAsk::Compare { probe, against } => {
                let numbers = |v: &Vec<u32>| -> Vec<f32> { v.iter().map(|b| f32::from_bits(*b)).collect() };
                let scores = against
                    .iter()
                    .map(|a| a.as_ref().and_then(|a| cosine_similarity(&numbers(&probe), &numbers(a))))
                    .collect();
                return (search, scores);
            }
        }
    }
}

fn scores(v: &[Option<f32>]) -> Vec<Option<Score>> {
    v.iter().map(|s| s.map(|x| Score { bits: x.to_bits(), words: x.to_string() })).collect()
}

const KNOWN: [(&str, [f32; 2]); 4] =
    [("set a timer", [1.0, 0.0]), ("check calendar", [0.0, 1.0]), ("start a timer", [1.0, 0.1]), ("sing", [-1.0, -1.0])];

#[test]
fn an_utterance_goes_to_the_workflow_with_the_nearest_intent() {
    let registry = registry(vec![
        workflow("timer", " set a timer ", "action"),
        workflow("calendar", "check calendar", "action"),
        workflow("silent", "  ", "action"),
    ]);
    assert_eq!(candidates(&registry), vec![pair("calendar", "check calendar"), pair("timer", "set a timer")]);
    let mut router = Router::new("nomic".to_string(), "llama".to_string());
    let mut calls = 0;
    let (s, found) = search(&mut router, ProbeKind::Utterance, "start a timer", &registry, &KNOWN, &mut calls);
    assert_eq!(calls, 2, "one call for the corpus and one for the utterance");
    match decide(&s, &registry, &scores(&found)) {
        RouteStep::Done(o) => {
            assert_eq!(o.matched_workflow_id.as_deref(), Some("timer"));
            assert_eq!(o.confirm_tier, Some(ConfirmTier::RouteFreely));
            assert_eq!(o.extracted_params, Some(json("{}")));
            assert_eq!(o.detail, None);
        }
        other => panic!("a workflow without parameters needs no extraction: {other:?}"),
    }
    calls = 0;
    search(&mut router, ProbeKind::Utterance, "start a timer", &registry, &KNOWN, &mut calls);
    assert_eq!(calls, 1, "the corpus is embedded already");
    assert_eq!(router.embed_model(), "nomic");
    assert_eq!(router.extract_model(), "llama");
}

#[test]
fn a_refusal_names_the_score_and_no_workflow() {
    let registry = registry(vec![workflow("timer", "set a timer", "action"), workflow("aaa", "check calendar", "x")]);
    let mut router = Router::new("nomic".to_string(), "llama".to_string());
    let (s, found) = search(&mut router, ProbeKind::Utterance, "sing", &registry, &KNOWN, &mut 0);
    let decided = decide(&s, &registry, &vec![None, Some(Score { bits: 0.5_f32.to_bits(), words: "0.5".to_string() })]);
    match decided {
        RouteStep::Done(o) => {
            assert_eq!(o.matched_workflow_id, None);
            assert_eq!(o.similarity_score, Some(0.5_f32.to_bits()));
            assert_eq!(
                o.detail.as_deref(),
                Some("best observed similarity 0.5 did not clear the 0.6 match threshold")
            );
        }
        other => panic!("expected a refusal, got {other:?}"),
    }
    // A workflow that has to be confirmed has to be closer.
    let close = vec![Some(Score { bits: 0.65_f32.to_bits(), words: "0.65".to_string() }), None];
    match decide(&s, &registry, &close) {
        RouteStep::Done(o) => assert_eq!(
            o.detail.as_deref(),
            Some("best observed similarity 0.65 did not clear the 0.7 match threshold")
        ),
        other => panic!("expected a refusal, got {other:?}"),
    }
    assert_eq!(found.len(), 2);
    match decide(&s, &registry, &vec![None, None]) {
        RouteStep::Done(o) => {
            assert_eq!(o.similarity_score, None);
            assert_eq!(o.detail.as_deref(), Some("no candidate workflow matched"));
        }
        other => panic!("expected a refusal, got {other:?}"),
    }
}

#[test]
fn utterances_are_bounded_by_characters() {
    assert_eq!(
        screen(" \t").and_then(|o| o.detail).as_deref(),
        Some("utterance is empty (or whitespace-only) after trimming")
    );
    assert_eq!(unfit_words(&"ä".repeat(1000)), None);
    assert_eq!(
        unfit_words(&"ä".repeat(1001)).as_deref(),
        Some("utterance is 1001 Unicode code points, exceeding the 1000-code-point limit")
    );
}

#[test]
fn an_answer_without_vectors_is_an_error() {
    let registry = registry(vec![]);
    let mut router = Router::new("nomic".to_string(), "llama".to_string());
    let (s, inputs) = router.begin_search(ProbeKind::Utterance, "sing", &registry);
    assert_eq!(inputs, vec!["sing".to_string()]);
    assert_eq!(
        router.embedded(s, Ok(vec![])).err(),
        Some(RouterError::MalformedResponse {
            endpoint: "nomic: /api/embed".to_string(),
            detail: "embed call for the utterance returned zero vectors".to_string()
        })
    );
    let (s, _) = router.begin_search(ProbeKind::Intent, "sing", &registry);
    let gone = RouterError::OllamaUnreachable { base_url: "u".to_string(), detail: "d".to_string() };
    assert!(matches!(router.embedded(s, Err(gone)), Err(RouterError::OllamaUnreachable { .. })));
}

#[test]
fn a_new_intent_collides_with_one_that_is_close() {
    let registry = registry(vec![workflow("timer", "set a timer", "action")]);
    let mut router = Router::new("nomic".to_string(), "llama".to_string());
    let (s, found) = search(&mut router, ProbeKind::Intent, "start a timer", &registry, &KNOWN, &mut 0);
    let found: Vec<Option<u32>> = found.iter().map(|x| x.map(|x| x.to_bits())).collect();
    assert_eq!(collision_among(&s, &found).map(|c| c.workflow_id).as_deref(), Some("timer"));
}

#[test]
fn parameters_are_taken_from_the_answer_where_they_fit() {
    let mut d = workflow("timer", "set a timer", "action");
    d.parameters.insert("duration_minutes".to_string(), spec(ParameterType::Int, true, None));
    let q = extraction_request(&d, "set \"it\"").expect("there is a parameter");
    assert!(q.system.starts_with("You extract structured parameters for the \"timer\" workflow"));
    assert_eq!(q.prompt, "Utterance: \"set \\\"it\\\"\"");
    assert_eq!(q.schema, build_param_schema(&d.parameters));

    let found = json(r#"{"duration_minutes": 5}"#);
    assert_eq!(check_extraction(&d, Ok(json(r#"{"duration_minutes": 5}"#))), (Some(found), None));
    let rejected = |detail: &str| format!("parameter extraction for workflow `timer` rejected: {detail}");
    assert_eq!(
        check_extraction(&d, Ok(json("[5]"))),
        (None, Some(rejected("the model's response parsed to a non-object JSON value")))
    );
    assert_eq!(
        check_extraction(&d, Ok(json("{}"))),
        (None, Some(rejected("validation failed: missing required parameter `duration_minutes`")))
    );

    let registry = registry(vec![d]);
    let mut router = Router::new("nomic".to_string(), "llama".to_string());
    let (s, v) = search(&mut router, ProbeKind::Utterance, "start a timer", &registry, &KNOWN, &mut 0);
    let matched = match decide(&s, &registry, &scores(&v)) {
        RouteStep::Extract(m, q) => {
            assert_eq!(q.prompt, "Utterance: \"start a timer\"");
            m
        }
        other => panic!("the model is asked for the parameters: {other:?}"),
    };
    let def = registry.lookup("timer").expect("known");
    let o = extracted(matched, def, Err(RouterError::ModelNotFound { model: "m".to_string(), detail: "d".to_string() }));
    assert_eq!(o.matched_workflow_id.as_deref(), Some("timer"));
    assert_eq!(o.confirm_tier, Some(ConfirmTier::RouteFreely));
    assert_eq!(o.extracted_params, None);
    assert_eq!(o.detail, Some(rejected("model `m` not found: d")));
}

#[test]
fn what_is_matched_does_not_depend_on_the_answer_of_the_model() {
    let mut d = workflow("timer", "set a timer", "action");
    d.parameters.insert("duration_minutes".to_string(), spec(ParameterType::Int, true, None));
    let registry = registry(vec![d, workflow("calendar", "check calendar", "action")]);
    let mut router = Router::new("nomic".to_string(), "llama".to_string());
    let answers = || {
        vec![
            Ok(json(r#"{"duration_minutes": 5}"#)),
            Ok(json("[]")),
            Err(RouterError::ModelNotFound { model: "m".to_string(), detail: "d".to_string() }),
        ]
    };
    for answer in answers() {
        let (s, v) = search(&mut router, ProbeKind::Utterance, "start a timer", &registry, &KNOWN, &mut 0);
        let found = scores(&v);
        let score = found[1].as_ref().map(|s| s.bits);
        let matched = match decide(&s, &registry, &found) {
            RouteStep::Extract(m, _) => m,
            other => panic!("the model is asked for the parameters: {other:?}"),
        };
        let o = extracted(matched, registry.lookup("timer").expect("known"), answer);
        assert_eq!(o.utterance, "start a timer");
        assert_eq!(o.matched_workflow_id.as_deref(), Some("timer"));
        assert_eq!(o.similarity_score, score);
        assert_eq!(o.confirm_tier, Some(ConfirmTier::RouteFreely));
        assert!(o.extracted_params.is_some() != o.detail.is_some());
    }
}

#[test]
fn an_envelope_that_was_read_elsewhere_is_taken_as_it_is() {
    let endpoint = "http://x/api/generate";
    assert_eq!(generated_in(Ok("{\"a\": 1}".to_string()), endpoint), Ok(json(r#"{"a": 1}"#)));
    assert_eq!(
        generated_in(Err("duplicate field `response`".to_string()), endpoint),
        Err(RouterError::MalformedResponse {
            endpoint: endpoint.to_string(),
            detail: "duplicate field `response`".to_string()
        })
    );
    match generated_in(Ok("no".to_string()), endpoint) {
        Err(RouterError::MalformedResponse { detail, .. }) => {
            assert!(detail.starts_with("`response` field was not valid JSON: "))
        }
        other => panic!("the text is no JSON: {other:?}"),
    }
}
