use semantic_probe::json::Json;
use semantic_probe::semantic_guard::{
    circuit_key, perturb_prompt_cache_key, plan_next_attempt, SemanticAction, SemanticGuard,
    SemanticOutcome, SemanticProbeConfig, NANOS_PER_SEC, SEMANTIC_FAILURE_WINDOW,
};

fn config() -> SemanticProbeConfig {
    SemanticProbeConfig {
        enabled: true,
        replay_enabled: true,
        window_ms: 200,
        max_attempts: 2,
        circuit_failure_threshold: 3,
        circuit_timeout_seconds: 60,
    }
}

fn secs(n: u128) -> u128 {
    n * NANOS_PER_SEC
}

fn text(s: &str) -> Json {
    Json::String(s.to_string())
}

#[test]
fn replay_plan_matches_policy() {
    // Default budget: original + one cache-preserving replay.
    assert_eq!(plan_next_attempt(1, 2), SemanticAction::RetrySame);
    assert_eq!(plan_next_attempt(2, 2), SemanticAction::GiveUp);
    // With a third send allowed, the second replay breaks affinity.
    assert_eq!(plan_next_attempt(2, 3), SemanticAction::RetryPerturbed);
    assert_eq!(plan_next_attempt(3, 3), SemanticAction::GiveUp);
    // Never more than three sends even if misconfigured.
    assert_eq!(plan_next_attempt(1, 99), SemanticAction::RetrySame);
    assert_eq!(plan_next_attempt(3, 99), SemanticAction::GiveUp);
}

#[test]
fn perturbation_only_touches_existing_cache_key() {
    let mut body = Json::Object(vec![
        ("model".to_string(), text("gpt-5.6-sol")),
        ("prompt_cache_key".to_string(), text("abc")),
    ]);
    let (old, new) = perturb_prompt_cache_key(&mut body, 42).expect("key perturbed");
    assert_eq!(old, "abc");
    assert!(new.starts_with("abc-sem-"));
    assert_eq!(body.get_str("prompt_cache_key"), Some(new.as_str()));

    let mut untouched = Json::Object(vec![("model".to_string(), text("gpt-5.6-sol"))]);
    assert!(perturb_prompt_cache_key(&mut untouched, 42).is_none());
    assert!(untouched.get("prompt_cache_key").is_none());
}

#[test]
fn circuit_key_is_endpoint_scoped_and_strips_query() {
    assert_eq!(
        circuit_key("codex", "hejuapi", Some("/v1/responses?foo=1")),
        "codex:hejuapi:/v1/responses"
    );
    assert_eq!(circuit_key("codex", "hejuapi", None), "codex:hejuapi");
}

#[test]
fn circuit_opens_after_threshold_then_cools_down() {
    let mut guard = SemanticGuard::new();
    let config = config();
    let key = "codex:hejuapi:/v1/responses";
    let start = secs(1_000);

    assert!(guard.allow(key, start));
    assert!(!guard.record_failure(key, &config, start));
    assert!(!guard.record_failure(key, &config, start + secs(1)));
    assert!(guard.record_failure(key, &config, start + secs(2)));

    // Open during cooldown (tripped at +2s, cooldown 60s, closes at +62s).
    assert!(!guard.allow(key, start + secs(30)));
    assert!(!guard.allow(key, start + secs(61)));
    // Closed after cooldown.
    assert!(guard.allow(key, start + secs(63)));
    assert_eq!(guard.failure_count(key), 0);
}

#[test]
fn failures_outside_window_do_not_trip_circuit() {
    let mut guard = SemanticGuard::new();
    let config = config();
    let key = "codex:hejuapi";
    let start = secs(1_000);

    assert!(!guard.record_failure(key, &config, start));
    assert!(!guard.record_failure(key, &config, start + secs(120)));
    // Third failure is >300s after the first, so the window has rolled over.
    assert!(!guard.record_failure(key, &config, start + secs(400)));
    assert!(guard.allow(key, start + secs(401)));
}

#[test]
fn success_clears_failures() {
    let mut guard = SemanticGuard::new();
    let config = config();
    let key = "codex:hejuapi";
    let now = secs(1_000);
    guard.record_failure(key, &config, now);
    guard.record_failure(key, &config, now);
    guard.record_success(key);
    assert_eq!(guard.failure_count(key), 0);
    assert!(!guard.record_failure(key, &config, now));
}

#[test]
fn at_most_three_sends_and_only_the_third_is_perturbed() {
    for (max_attempts, expected) in [(0, 1), (1, 1), (2, 2), (3, 3), (4, 3), (u32::MAX, 3)] {
        let mut sends = 1;
        let mut perturbed = Vec::new();
        loop {
            match plan_next_attempt(sends, max_attempts) {
                SemanticAction::GiveUp => break,
                SemanticAction::RetrySame => sends += 1,
                SemanticAction::RetryPerturbed => {
                    sends += 1;
                    perturbed.push(sends);
                }
            }
        }
        assert_eq!(sends, expected);
        assert_eq!(perturbed, if expected == 3 { vec![3] } else { vec![] });
    }
}

#[test]
fn perturbed_keys_end_in_sixteen_hex_digits() {
    let mut body = Json::Object(vec![
        ("prompt_cache_key".to_string(), text("abc")),
        ("model".to_string(), text("m")),
        ("stream".to_string(), Json::Bool(true)),
    ]);
    assert_eq!(
        perturb_prompt_cache_key(&mut body, 42),
        Some(("abc".to_string(), "abc-sem-000000000000002a".to_string()))
    );
    assert_eq!(
        body,
        Json::Object(vec![
            ("prompt_cache_key".to_string(), text("abc-sem-000000000000002a")),
            ("model".to_string(), text("m")),
            ("stream".to_string(), Json::Bool(true)),
        ])
    );
    let (_, last) = perturb_prompt_cache_key(&mut body, u64::MAX).unwrap();
    assert_eq!(last, "abc-sem-000000000000002a-sem-ffffffffffffffff");
}

#[test]
fn bodies_without_a_string_key_stay_as_they_are() {
    let bodies: [fn() -> Json; 5] = [
        || Json::Null,
        || Json::Array(vec![text("prompt_cache_key")]),
        || Json::Object(vec![("prompt_cache_key".to_string(), text(""))]),
        || Json::Object(vec![("prompt_cache_key".to_string(), Json::Bool(true))]),
        || Json::Object(vec![("Prompt_cache_key".to_string(), text("abc"))]),
    ];
    for make in bodies {
        let mut body = make();
        assert_eq!(perturb_prompt_cache_key(&mut body, 1), None);
        assert_eq!(body, make());
    }
}

#[test]
fn circuit_keys_of_odd_endpoints() {
    assert_eq!(circuit_key("a", "p", Some("")), "a:p");
    assert_eq!(circuit_key("a", "p", Some("/x?a?b")), "a:p:/x");
    assert_eq!(circuit_key("a", "p", Some("/x?")), "a:p:/x");
    assert_eq!(circuit_key("a", "p", Some("?q")), "a:p:");
    assert_eq!(circuit_key("应用", "供应", Some("/路")), "应用:供应:/路");
}

#[test]
fn the_circuit_is_open_for_the_whole_cooldown() {
    let mut guard = SemanticGuard::default();
    let mut config = config();
    config.circuit_failure_threshold = 0;
    config.circuit_timeout_seconds = 0;
    // Both limits are at least one.
    assert!(guard.record_failure("k", &config, 5));
    assert!(!guard.allow("k", 5));
    assert!(!guard.allow("k", secs(1) + 4));
    assert!(guard.allow("k", secs(1) + 5));
    // Once asked, the circuit stays closed, whatever the clock says.
    assert!(guard.allow("k", 5));
}

#[test]
fn the_window_is_half_open() {
    assert_eq!(SEMANTIC_FAILURE_WINDOW, secs(300));
    let mut config = config();
    config.circuit_failure_threshold = 2;
    let mut guard = SemanticGuard::new();
    assert!(!guard.record_failure("k", &config, 0));
    assert!(!guard.record_failure("k", &config, secs(300)));
    assert_eq!(guard.failure_count("k"), 1);
    assert!(guard.record_failure("k", &config, secs(600) - 1));
    // A clock that is behind counts what lies ahead of it.
    let mut guard = SemanticGuard::new();
    assert!(!guard.record_failure("k", &config, secs(900)));
    assert!(guard.record_failure("k", &config, secs(1)));
}

#[test]
fn targets_have_their_own_circuits() {
    let mut guard = SemanticGuard::new();
    let config = config();
    for at in 0..3 {
        guard.record_failure("bad", &config, at);
    }
    assert!(!guard.record_failure("other", &config, 0));
    assert!(!guard.allow("bad", secs(1)));
    assert!(guard.allow("other", secs(1)));
    guard.record_success("other");
    assert!(!guard.allow("bad", secs(1)));
    guard.record_success("bad");
    assert!(guard.allow("bad", secs(1)));
    assert_eq!(guard.failure_count("bad"), 0);
}

#[test]
fn outcomes_have_names() {
    assert_eq!(SemanticOutcome::DryRun.as_str(), "dry_run");
    assert_eq!(SemanticOutcome::Recovered.as_str(), "recovered");
    assert_eq!(SemanticOutcome::Exhausted.as_str(), "exhausted");
    assert_eq!(SemanticOutcome::CircuitOpen.as_str(), "circuit_open");
}

#[test]
fn a_failure_trips_by_the_window_that_slides_with_it() {
    let config = config();
    let mut guard = SemanticGuard::new();
    let mut since_reset: Vec<u128> = Vec::new();
    for at in [0, 200, 301, 400, 499, 500, 900, 1_199, 1_200, 1_201, 1_300, 1_301] {
        guard.allow("k", secs(at));
        let young = since_reset.iter().filter(|then| at - **then < 300).count();
        let trips = young + 1 >= 3;
        assert_eq!(guard.record_failure("k", &config, secs(at)), trips);
        if trips {
            since_reset.clear();
        } else {
            since_reset.push(at);
        }
    }
}
