use semantic_probe::json::{Json, JsonNumber};
use semantic_probe::semantic_detector::{
    analyze_tier_b, classify_item_id, classify_response_id, is_lowercase_hex, observe, IdVerdict,
    ProbeDecision, ResponseProbe, SemanticEvidence, SemanticTier, TierBInput, TierBSignal,
    MAX_TIER_A_EVENTS,
};

const GOOD_RESP: &str = "resp_0b90cdd71061d98f016a9bad07e29487d1ac8b3aeda7d200a2";
const GOOD_RESP_2: &str = "resp_0b1a742d14f12666016a9bad0ccae887d1b30a0ed37abd1bb7";
const BAD_RESP: &str = "resp_d96da2e57b58406c921d0c90486646c3";
const BAD_RESP_2: &str = "resp_26cfe358111348e2adc810fb4942c0a1";
const GOOD_ITEM: &str = "rs_03d5a775fca33580016ab1432b1f7887d1b2caba9c3d9b7f83";
const BAD_ITEM: &str = "rs_cea4809436f44b6b8fde96bbe033f447";
const BAD_MSG: &str = "msg_feb7455d07dd483e85c564679a6db380";

fn text(s: &str) -> Json {
    Json::String(s.to_string())
}

fn object(fields: Vec<(&str, Json)>) -> Json {
    Json::Object(fields.into_iter().map(|(key, value)| (key.to_string(), value)).collect())
}

fn created(id: &str) -> Json {
    object(vec![
        ("response", object(vec![("id", text(id))])),
        ("type", text("response.created")),
    ])
}

fn item_added(id: &str) -> Json {
    object(vec![
        ("item", object(vec![("id", text(id))])),
        ("type", text("response.output_item.added")),
    ])
}

#[test]
fn response_id_whitelist_covers_all_four_shapes() {
    assert_eq!(classify_response_id(Some(GOOD_RESP)).verdict, IdVerdict::KnownGood);
    assert_eq!(classify_response_id(Some(GOOD_RESP_2)).verdict, IdVerdict::KnownGood);
    assert_eq!(classify_response_id(Some(BAD_RESP)).verdict, IdVerdict::Suspect);
    assert_eq!(classify_response_id(Some(BAD_RESP_2)).verdict, IdVerdict::Suspect);
    assert_eq!(classify_response_id(Some("resp_bad")).verdict, IdVerdict::Unknown);
    assert_eq!(classify_response_id(Some("chatcmpl-abc")).verdict, IdVerdict::Unknown);
    // Uppercase hex and mixed-length ids are never "suspect by exclusion".
    assert_eq!(
        classify_response_id(Some("resp_D96DA2E57B58406C921D0C90486646C3")).verdict,
        IdVerdict::Unknown
    );
    assert_eq!(
        classify_response_id(Some("resp_d96da2e57b58406c921d0c90486646c")).verdict,
        IdVerdict::Unknown
    );
    assert_eq!(classify_response_id(None).verdict, IdVerdict::Unknown);
    assert_eq!(classify_response_id(Some("")).verdict, IdVerdict::Unknown);
    // Non-ASCII must not panic on byte slicing.
    assert_eq!(classify_response_id(Some("resp_中文测试")).verdict, IdVerdict::Unknown);
}

#[test]
fn item_id_whitelist_covers_all_shapes() {
    assert_eq!(classify_item_id(Some(BAD_ITEM)).verdict, IdVerdict::Suspect);
    assert_eq!(classify_item_id(Some(BAD_MSG)).verdict, IdVerdict::Suspect);
    assert_eq!(classify_item_id(Some(GOOD_ITEM)).verdict, IdVerdict::Unknown);
    assert_eq!(classify_item_id(Some("rs_short")).verdict, IdVerdict::Unknown);
    assert_eq!(classify_item_id(Some("unknown_prefix_32")).verdict, IdVerdict::Unknown);
    assert_eq!(classify_item_id(Some("")).verdict, IdVerdict::Unknown);
    assert_eq!(classify_item_id(None).verdict, IdVerdict::Unknown);
    // fc_/ctc_ tool item ids follow the same rule.
    assert_eq!(
        classify_item_id(Some("fc_cea4809436f44b6b8fde96bbe033f447")).verdict,
        IdVerdict::Suspect
    );
    assert_eq!(
        classify_item_id(Some("ctc_cea4809436f44b6b8fde96bbe033f447")).verdict,
        IdVerdict::Suspect
    );
}

#[test]
fn healthy_first_event_passes_immediately_without_replay() {
    let mut probe = ResponseProbe::new();
    assert_eq!(
        probe.observe_event("response.created", &created(GOOD_RESP)),
        ProbeDecision::Pass
    );
    assert_eq!(probe.decision(), ProbeDecision::Pass);
    assert!(probe.evidence().is_empty());
}

#[test]
fn degraded_stream_needs_two_independent_tier_a_samples() {
    let mut probe = ResponseProbe::new();
    assert_eq!(
        probe.observe_event("response.created", &created(BAD_RESP)),
        ProbeDecision::Continue
    );
    assert_eq!(
        probe.observe_event("response.output_item.added", &item_added(BAD_ITEM)),
        ProbeDecision::Degraded
    );
    assert_eq!(probe.suspect_sample_count(), 2);
    assert!(probe.evidence().contains(&SemanticEvidence::ResponseId32Hex));
    assert!(probe.evidence().contains(&SemanticEvidence::ItemId32Hex));
}

#[test]
fn suspect_response_id_with_long_item_id_is_not_replayed() {
    let mut probe = ResponseProbe::new();
    assert_eq!(
        probe.observe_event("response.created", &created(BAD_RESP)),
        ProbeDecision::Continue
    );
    // Only one independent suspect sample before the window closes.
    assert_eq!(
        probe.observe_event("response.output_item.added", &item_added(GOOD_ITEM)),
        ProbeDecision::Pass
    );
    assert_eq!(probe.decision(), ProbeDecision::Pass);
}

#[test]
fn unknown_first_event_never_replays() {
    let mut probe = ResponseProbe::new();
    assert_eq!(
        probe.observe_event("response.created", &created("resp_not_a_known_shape")),
        ProbeDecision::Pass
    );
}

#[test]
fn event_cap_closes_the_window_without_degrading() {
    let mut probe = ResponseProbe::new();
    assert_eq!(
        probe.observe_event("response.created", &created(BAD_RESP)),
        ProbeDecision::Continue
    );
    for _ in 0..(MAX_TIER_A_EVENTS - 1) {
        let decision =
            probe.observe_event("response.in_progress", &object(vec![("type", text("x"))]));
        if decision == ProbeDecision::Pass {
            return;
        }
    }
    assert_eq!(probe.decision(), ProbeDecision::Pass);
}

#[test]
fn timeout_close_never_degrades() {
    let mut probe = ResponseProbe::new();
    probe.observe_event("response.created", &created(BAD_RESP));
    assert_eq!(probe.close_window(), ProbeDecision::Pass);
}

#[test]
fn tier_b_never_reports_tier_a_degradation() {
    let texts = vec!["I'm not seeing any definitions in the prompt".to_string()];
    let signals = analyze_tier_b(&TierBInput {
        request_had_tools: true,
        previous_input_tokens: Some(95_551),
        input_tokens: Some(12_855),
        function_call_items: 0,
        custom_tool_call_items: 0,
        assistant_texts: &texts,
    });
    assert!(signals.contains(&TierBSignal::UsageCollapse));
    assert!(signals.contains(&TierBSignal::ToolsRequestedButNoToolCall));
    assert!(signals.contains(&TierBSignal::SelfReportedNoTools));
}

#[test]
fn tier_b_ignores_healthy_tool_loop() {
    let texts = vec!["Running the command".to_string()];
    let signals = analyze_tier_b(&TierBInput {
        request_had_tools: true,
        previous_input_tokens: Some(95_551),
        input_tokens: Some(103_116),
        function_call_items: 2,
        custom_tool_call_items: 0,
        assistant_texts: &texts,
    });
    assert!(signals.is_empty());
}

#[test]
fn hex_digits_are_lowercase_and_at_least_one() {
    assert!(is_lowercase_hex("0123456789abcdef"));
    assert!(is_lowercase_hex("a"));
    assert!(!is_lowercase_hex(""));
    assert!(!is_lowercase_hex("A"));
    assert!(!is_lowercase_hex("g"));
    assert!(!is_lowercase_hex("0x1"));
    assert!(!is_lowercase_hex("１"));
}

#[test]
fn observations_carry_tier_verdict_and_evidence() {
    let seen = observe("response.created", &created(GOOD_RESP));
    assert_eq!(seen.tier, SemanticTier::A);
    assert_eq!(seen.verdict, IdVerdict::KnownGood);
    assert_eq!(seen.evidence, SemanticEvidence::ResponseIdKnownGood);
    let seen = observe("response.output_item.added", &item_added(GOOD_ITEM));
    assert_eq!(seen.verdict, IdVerdict::Unknown);
    assert_eq!(seen.evidence, SemanticEvidence::SessionScopedItemId);
    // The ids may also stand at the top.
    let flat = object(vec![("id", text(BAD_RESP))]);
    assert_eq!(observe("response.created", &flat).evidence, SemanticEvidence::ResponseId32Hex);
    let flat = object(vec![("item_id", text(BAD_MSG))]);
    assert_eq!(
        observe("response.output_item.added", &flat).evidence,
        SemanticEvidence::ItemId32Hex
    );
    let number = object(vec![
        ("id", text(BAD_RESP)),
        ("response", object(vec![("id", Json::Number(JsonNumber::Unsigned(1)))])),
    ]);
    assert_eq!(observe("response.created", &number).evidence, SemanticEvidence::ResponseId32Hex);
    // Other events are not looked at.
    let seen = observe("response.in_progress", &created(BAD_RESP));
    assert_eq!(seen.verdict, IdVerdict::Unknown);
    assert_eq!(seen.evidence, SemanticEvidence::UnknownItemId);
    assert_eq!(
        observe("response.created", &Json::Null).evidence,
        SemanticEvidence::UnknownResponseId
    );
}

#[test]
fn the_payload_type_stands_in_for_a_missing_event_type() {
    let mut probe = ResponseProbe::default();
    assert_eq!(probe.observe_event("", &created(BAD_RESP)), ProbeDecision::Continue);
    assert_eq!(probe.request_id(), Some(BAD_RESP));
    assert_eq!(probe.observe_event("", &item_added(BAD_ITEM)), ProbeDecision::Degraded);
    assert_eq!(
        probe.evidence(),
        vec![SemanticEvidence::ResponseId32Hex, SemanticEvidence::ItemId32Hex]
    );
}

#[test]
fn decisions_are_final() {
    let mut probe = ResponseProbe::new();
    probe.observe_event("response.created", &created(GOOD_RESP));
    assert_eq!(
        probe.observe_event("response.created", &created(BAD_RESP)),
        ProbeDecision::Pass
    );
    assert_eq!(
        probe.observe_event("response.output_item.added", &item_added(BAD_ITEM)),
        ProbeDecision::Pass
    );
    assert_eq!(probe.request_id(), Some(GOOD_RESP));
    let mut probe = ResponseProbe::new();
    probe.observe_event("response.created", &created(BAD_RESP));
    probe.observe_event("response.output_item.added", &item_added(BAD_ITEM));
    assert_eq!(probe.close_window(), ProbeDecision::Degraded);
    assert_eq!(
        probe.observe_event("response.created", &created(GOOD_RESP)),
        ProbeDecision::Degraded
    );
}

#[test]
fn the_second_sample_may_come_until_the_event_cap() {
    let filler = object(vec![("type", text("x"))]);
    for fillers in 0..MAX_TIER_A_EVENTS {
        let mut probe = ResponseProbe::new();
        probe.observe_event("response.created", &created(BAD_RESP));
        for _ in 0..fillers {
            probe.observe_event("response.in_progress", &filler);
        }
        let decision = probe.observe_event("response.output_item.added", &item_added(BAD_ITEM));
        // The added item is event number `fillers + 2`.
        if fillers + 2 <= MAX_TIER_A_EVENTS {
            assert_eq!(decision, ProbeDecision::Degraded);
        } else {
            assert_eq!(decision, ProbeDecision::Pass);
        }
    }
}

#[test]
fn the_same_sample_twice_is_not_independent() {
    let mut probe = ResponseProbe::new();
    for _ in 0..(MAX_TIER_A_EVENTS - 1) {
        assert_eq!(
            probe.observe_event("response.created", &created(BAD_RESP)),
            ProbeDecision::Continue
        );
        assert_eq!(probe.suspect_sample_count(), 1);
    }
    assert_eq!(
        probe.observe_event("response.created", &created(BAD_RESP_2)),
        ProbeDecision::Pass
    );
    assert_eq!(probe.evidence(), vec![SemanticEvidence::ResponseId32Hex]);
    assert_eq!(probe.request_id(), Some(BAD_RESP));
    assert_eq!(probe.last_sample(), Some(SemanticEvidence::ResponseId32Hex));
}

#[test]
fn a_suspect_item_first_is_never_replayed() {
    let mut probe = ResponseProbe::new();
    assert_eq!(
        probe.observe_event("response.output_item.added", &item_added(BAD_ITEM)),
        ProbeDecision::Pass
    );
    assert_eq!(probe.suspect_sample_count(), 0);
    assert_eq!(probe.request_id(), None);
    assert_eq!(probe.last_sample(), Some(SemanticEvidence::ItemId32Hex));
}

fn signals(previous: Option<u64>, current: Option<u64>, texts: &[String]) -> Vec<TierBSignal> {
    analyze_tier_b(&TierBInput {
        request_had_tools: false,
        previous_input_tokens: previous,
        input_tokens: current,
        function_call_items: 0,
        custom_tool_call_items: 0,
        assistant_texts: texts,
    })
}

#[test]
fn usage_collapses_below_half_of_a_large_prompt() {
    let collapse = vec![TierBSignal::UsageCollapse];
    assert_eq!(signals(Some(10_000), Some(4_999), &[]), collapse);
    assert_eq!(signals(Some(10_000), Some(5_000), &[]), vec![]);
    assert_eq!(signals(Some(10_001), Some(5_000), &[]), collapse);
    assert_eq!(signals(Some(9_999), Some(0), &[]), vec![]);
    assert_eq!(signals(None, Some(0), &[]), vec![]);
    assert_eq!(signals(Some(10_000), None, &[]), vec![]);
    assert_eq!(signals(Some(u64::MAX), Some(u64::MAX), &[]), vec![]);
    assert_eq!(signals(Some(u64::MAX), Some(u64::MAX / 2), &[]), collapse);
}

#[test]
fn assistants_report_missing_tools_in_any_case() {
    let reported = vec![TierBSignal::SelfReportedNoTools];
    for said in [
        "There is NO TOOL here",
        "tools were not provided",
        "I have No Definitions in the prompt.",
        "抱歉，没有工具可用",
        "无法调用工具",
        "未提供工具",
        "I cannot call tools",
    ] {
        assert_eq!(signals(None, None, &["fine".to_string(), said.to_string()]), reported);
    }
    for said in ["", "no t", "some tools", "工具"] {
        assert_eq!(signals(None, None, &[said.to_string()]), vec![]);
    }
}

#[test]
fn either_kind_of_tool_call_counts() {
    for (function_calls, custom_calls) in [(1, 0), (0, 1)] {
        let found = analyze_tier_b(&TierBInput {
            request_had_tools: true,
            previous_input_tokens: None,
            input_tokens: None,
            function_call_items: function_calls,
            custom_tool_call_items: custom_calls,
            assistant_texts: &[],
        });
        assert!(found.is_empty());
    }
}

#[test]
fn evidence_and_signals_have_names() {
    assert_eq!(SemanticEvidence::ResponseIdKnownGood.as_str(), "response_id_known_good");
    assert_eq!(SemanticEvidence::ResponseId32Hex.as_str(), "response_id_32hex");
    assert_eq!(SemanticEvidence::ItemId32Hex.as_str(), "item_id_32hex");
    assert_eq!(SemanticEvidence::SessionScopedItemId.as_str(), "item_id_session_scoped");
    assert_eq!(SemanticEvidence::UnknownResponseId.as_str(), "response_id_unknown");
    assert_eq!(SemanticEvidence::UnknownItemId.as_str(), "item_id_unknown");
    assert!(SemanticEvidence::ResponseId32Hex.is_suspect());
    assert!(SemanticEvidence::ItemId32Hex.is_suspect());
    assert!(!SemanticEvidence::ResponseIdKnownGood.is_suspect());
    assert!(!SemanticEvidence::SessionScopedItemId.is_suspect());
    assert_eq!(TierBSignal::UsageCollapse.as_str(), "usage_collapse");
    assert_eq!(
        TierBSignal::ToolsRequestedButNoToolCall.as_str(),
        "tools_requested_but_no_tool_call"
    );
    assert_eq!(TierBSignal::SelfReportedNoTools.as_str(), "self_reported_no_tools");
}
