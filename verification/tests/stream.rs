use semantic_probe::probe_stream::{
    parse_sse_data, tier_a_window, ProbeOutcome, ProbeStep, SseProbe,
};
use semantic_probe::replay::{Arrival, Replay, ReplayTail};
use semantic_probe::semantic_detector::{SemanticEvidence, MAX_TIER_A_WINDOW};
use semantic_probe::sse::{append_utf8_safe, strip_sse_field, take_sse_block};
use semantic_probe::stream_start::{
    validate_success_response, ProxyError, StartStep, StreamStart, MAX_PRIME_BYTES,
};

const GOOD_RESP: &str = "resp_0b90cdd71061d98f016a9bad07e29487d1ac8b3aeda7d200a2";
const BAD_RESP: &str = "resp_d96da2e57b58406c921d0c90486646c3";
const GOOD_ITEM: &str = "rs_03d5a775fca33580016ab1432b1f7887d1b2caba9c3d9b7f83";
const BAD_ITEM: &str = "rs_cea4809436f44b6b8fde96bbe033f447";

fn created_block(id: &str) -> String {
    format!("event: response.created\ndata: {{\"type\":\"response.created\",\"response\":{{\"id\":\"{id}\"}}}}\n\n")
}

fn item_block(id: &str) -> String {
    format!("event: response.output_item.added\ndata: {{\"type\":\"response.output_item.added\",\"item\":{{\"id\":\"{id}\"}}}}\n\n")
}

fn chunk(text: &str) -> Arrival {
    Arrival::Chunk(text.as_bytes().to_vec())
}

/// Probes a stream that gives these arrivals. Returns the outcome and the chunks
/// that were not read.
fn probe(arrivals: Vec<Arrival>) -> (ProbeOutcome, Vec<Vec<u8>>) {
    let mut state = Some(SseProbe::new());
    let mut outcome = None;
    let mut rest = Vec::new();
    for arrival in arrivals {
        match state.take() {
            Some(current) => match current.on_arrival(arrival) {
                ProbeStep::Read(next) => state = Some(next),
                ProbeStep::Done(done) => outcome = Some(done),
            },
            None => {
                if let Arrival::Chunk(bytes) = arrival {
                    rest.push(bytes);
                }
            }
        }
    }
    (outcome.expect("the probe decides"), rest)
}

fn body_of(response: &Replay, rest: &[Vec<u8>]) -> String {
    let mut bytes: Vec<u8> = Vec::new();
    for part in response.chunks.iter().chain(rest.iter()) {
        bytes.extend_from_slice(part);
    }
    String::from_utf8(bytes).unwrap()
}

#[test]
fn probe_healthy_stream_passes_and_replays_every_byte() {
    let body = vec![
        created_block(GOOD_RESP),
        item_block(GOOD_ITEM),
        "event: response.completed\ndata: {\"type\":\"response.completed\"}\n\n".to_string(),
    ];
    let whole = body.concat();
    let mut arrivals: Vec<Arrival> = body.iter().map(|block| chunk(block)).collect();
    arrivals.push(Arrival::Ended);
    let (outcome, rest) = probe(arrivals);
    match outcome {
        ProbeOutcome::Pass { response, request_id, .. } => {
            assert_eq!(request_id.as_deref(), Some(GOOD_RESP));
            let text = body_of(&response, &rest);
            assert!(text.contains(GOOD_RESP));
            assert!(text.contains(GOOD_ITEM));
            assert!(text.contains("response.completed"));
            assert_eq!(text, whole);
            // The first event closes the probe.
            assert_eq!(response.chunks.len(), 1);
            assert_eq!(response.tail, ReplayTail::Upstream);
        }
        ProbeOutcome::Degraded { .. } => panic!("healthy stream must never degrade"),
    }
}

#[test]
fn probe_degraded_stream_aborts_before_client_bytes() {
    let (outcome, _) = probe(vec![
        chunk(&created_block(BAD_RESP)),
        chunk(&item_block(BAD_ITEM)),
        Arrival::Ended,
    ]);
    match outcome {
        ProbeOutcome::Degraded { response, evidence, request_id } => {
            assert_eq!(request_id.as_deref(), Some(BAD_RESP));
            assert!(evidence.contains(&SemanticEvidence::ResponseId32Hex));
            assert!(evidence.contains(&SemanticEvidence::ItemId32Hex));
            assert_eq!(evidence.len(), 2);
            assert_eq!(response.chunks.len(), 2);
            assert_eq!(response.tail, ReplayTail::Upstream);
        }
        ProbeOutcome::Pass { .. } => panic!("degraded stream must be flagged"),
    }
}

#[test]
fn probe_healthy_stream_without_tool_call_is_never_replayed() {
    // Tier B would fire (no tool call) but Tier A is healthy: no replay.
    let (outcome, _) = probe(vec![
        chunk(&created_block(GOOD_RESP)),
        chunk(&item_block(GOOD_ITEM)),
        chunk("event: response.output_text.delta\ndata: {\"type\":\"response.output_text.delta\",\"delta\":\"hi\"}\n\n"),
        Arrival::Ended,
    ]);
    assert!(matches!(outcome, ProbeOutcome::Pass { .. }));
}

#[test]
fn probe_first_event_timeout_passes_through() {
    let (outcome, _) = probe(vec![Arrival::TimedOut]);
    assert!(matches!(outcome, ProbeOutcome::Pass { .. }));
}

#[test]
fn the_verdict_does_not_depend_on_the_chunks() {
    let whole = created_block(BAD_RESP) + &item_block(BAD_ITEM);
    for size in [1, 2, 3, 7, 64, whole.len()] {
        let mut arrivals: Vec<Arrival> =
            whole.as_bytes().chunks(size).map(|part| Arrival::Chunk(part.to_vec())).collect();
        arrivals.push(Arrival::Ended);
        match probe(arrivals) {
            (ProbeOutcome::Degraded { response, evidence, request_id }, rest) => {
                assert_eq!(
                    evidence,
                    vec![SemanticEvidence::ResponseId32Hex, SemanticEvidence::ItemId32Hex]
                );
                assert_eq!(request_id.as_deref(), Some(BAD_RESP));
                assert_eq!(body_of(&response, &rest), whole);
            }
            (ProbeOutcome::Pass { .. }, _) => panic!("degraded in chunks of {size}"),
        }
    }
}

#[test]
fn a_broken_stream_passes_with_its_failure_behind_the_bytes() {
    let (outcome, _) =
        probe(vec![chunk(&created_block(BAD_RESP)), Arrival::Failed("reset".to_string())]);
    match outcome {
        ProbeOutcome::Pass { response, detected, request_id } => {
            assert_eq!(response.tail, ReplayTail::Failure);
            assert_eq!(body_of(&response, &[]), created_block(BAD_RESP));
            assert_eq!(detected, Some(SemanticEvidence::ResponseId32Hex));
            assert_eq!(request_id.as_deref(), Some(BAD_RESP));
        }
        ProbeOutcome::Degraded { .. } => panic!("one sample is not enough"),
    }
}

#[test]
fn a_stream_that_ends_or_stalls_after_one_sample_passes() {
    for last in [Arrival::Ended, Arrival::TimedOut] {
        let (outcome, _) = probe(vec![chunk(&created_block(BAD_RESP)), last]);
        match outcome {
            ProbeOutcome::Pass { response, .. } => {
                assert_eq!(response.tail, ReplayTail::Upstream);
                assert_eq!(response.chunks.len(), 1);
            }
            ProbeOutcome::Degraded { .. } => panic!("one sample is not enough"),
        }
    }
}

#[test]
fn comments_and_end_markers_are_no_events() {
    let text = format!(
        ": keep-alive\n\n{}data: [DONE]\n\nevent: ping\n\n{}",
        created_block(BAD_RESP),
        item_block(BAD_ITEM)
    );
    let (outcome, _) = probe(vec![chunk(&text)]);
    assert!(matches!(outcome, ProbeOutcome::Degraded { .. }));
}

#[test]
fn blocks_are_parsed_into_type_and_payload() {
    let (kind, payload) = parse_sse_data("event: a\ndata: {\"type\":\"b\",\"n\":1}").unwrap();
    assert_eq!(kind, "a");
    assert_eq!(payload.get_str("type"), Some("b"));
    // The payload's type stands in for a name that is missing or empty.
    assert_eq!(parse_sse_data("data: {\"type\":\"b\"}").unwrap().0, "b");
    assert_eq!(parse_sse_data("event:  \ndata: {\"type\":\"b\"}").unwrap().0, "b");
    assert_eq!(parse_sse_data("data: {}").unwrap().0, "");
    // Data lines are joined, and one space behind the colon is dropped.
    assert_eq!(parse_sse_data("data: {\"type\":\ndata:\"c\"}").unwrap().0, "c");
    // The last name counts.
    assert_eq!(parse_sse_data("event: a\nevent: d\ndata: 1").unwrap().0, "d");
    assert!(parse_sse_data(": comment").is_none());
    assert!(parse_sse_data("data: [DONE]").is_none());
    assert!(parse_sse_data("data: not json").is_none());
    assert!(parse_sse_data("").is_none());
}

#[test]
fn the_window_is_capped() {
    assert_eq!(MAX_TIER_A_WINDOW, 200_000_000);
    assert_eq!(tier_a_window(50_000_000), 50_000_000);
    assert_eq!(tier_a_window(200_000_000), 200_000_000);
    assert_eq!(tier_a_window(5_000_000_000), 200_000_000);
    assert_eq!(tier_a_window(0), 0);
}

fn decode(parts: &[&[u8]]) -> (String, Vec<u8>) {
    let mut buffer: Vec<char> = Vec::new();
    let mut remainder: Vec<u8> = Vec::new();
    for part in parts {
        append_utf8_safe(&mut buffer, &mut remainder, part);
    }
    (buffer.into_iter().collect(), remainder)
}

#[test]
fn characters_split_across_chunks_are_put_together() {
    let text = "aé€😀中\u{7ff}\u{800}\u{ffff}\u{10000}\u{10ffff}";
    let bytes = text.as_bytes();
    for cut in 0..bytes.len() {
        let (first, second) = bytes.split_at(cut);
        assert_eq!(decode(&[first, second]), (text.to_string(), Vec::new()));
    }
    let single: Vec<&[u8]> = bytes.chunks(1).collect();
    assert_eq!(decode(&single), (text.to_string(), Vec::new()));
    // What is not complete waits.
    assert_eq!(decode(&[&bytes[..2]]), ("a".to_string(), vec![0xC3]));
    assert_eq!(decode(&[b"\xF0\x9F\x98"]), (String::new(), vec![0xF0, 0x9F, 0x98]));
}

#[test]
fn broken_bytes_are_replaced_as_std_does() {
    let samples: [&[u8]; 8] = [
        b"a\xFFb",
        b"\xC0\x80x",
        b"\xE2\x28\xA1x",
        b"\xE2\x82x",
        b"\xED\xA0\x80x",
        b"\xF0\x80\x80\x80x",
        b"\xF4\x90\x80\x80x",
        b"\xF0\x9F\x98x\x80y",
    ];
    for bytes in samples {
        let expected = String::from_utf8_lossy(bytes).to_string();
        assert_eq!(decode(&[bytes]), (expected, Vec::new()));
    }
}

fn take(buffer: &mut Vec<char>) -> Option<String> {
    take_sse_block(buffer).map(|block| block.into_iter().collect())
}

#[test]
fn blocks_are_taken_in_order() {
    let mut buffer: Vec<char> = "a\n\nb\r\n\r\n\n\nc\nd".chars().collect();
    assert_eq!(take(&mut buffer).as_deref(), Some("a"));
    assert_eq!(take(&mut buffer).as_deref(), Some("b"));
    assert_eq!(take(&mut buffer).as_deref(), Some(""));
    assert_eq!(take(&mut buffer), None);
    assert_eq!(buffer.iter().collect::<String>(), "c\nd");
}

fn field(line: &str, name: &str) -> Option<String> {
    let chars: Vec<char> = line.chars().collect();
    strip_sse_field(&chars, name).map(|value| value.iter().collect())
}

#[test]
fn fields_lose_their_name_and_one_space() {
    assert_eq!(field("data: x", "data").as_deref(), Some("x"));
    assert_eq!(field("data:x", "data").as_deref(), Some("x"));
    assert_eq!(field("data:  x", "data").as_deref(), Some(" x"));
    assert_eq!(field("data:", "data").as_deref(), Some(""));
    assert_eq!(field("data", "data"), None);
    assert_eq!(field("database: x", "data"), None);
    assert_eq!(field("event: x", "data"), None);
}

/// What the start of a stream that gives these arrivals comes to.
fn start(arrivals: Vec<Arrival>) -> StartStep {
    let mut state = StreamStart::begin(30, 0).expect("there is a time limit");
    for arrival in arrivals {
        match state.on_arrival(arrival) {
            StartStep::Read(next) => state = next,
            settled => return settled,
        }
    }
    StartStep::Read(state)
}

fn committed(arrivals: Vec<Arrival>) -> Replay {
    match start(arrivals) {
        StartStep::Done(result) => result.expect("the stream is handed on"),
        _ => panic!("the start is not settled"),
    }
}

fn refused(arrivals: Vec<Arrival>) -> ProxyError {
    match start(arrivals) {
        StartStep::Done(result) => result.expect_err("the stream is refused"),
        _ => panic!("the start is not settled"),
    }
}

fn read_on(arrivals: Vec<Arrival>) -> bool {
    matches!(start(arrivals), StartStep::Read(_))
}

fn semantic(message: &str) -> ProxyError {
    ProxyError::TransformError(format!("Upstream returned a 2xx semantic error: {message}"))
}

#[test]
fn without_a_time_limit_nothing_is_read_ahead() {
    assert!(StreamStart::begin(0, 0).is_none());
    assert!(StreamStart::begin(0, 1).is_some());
    assert!(StreamStart::begin(1, 0).is_some());
}

#[test]
fn an_initial_error_event_is_refused_however_it_is_cut() {
    let text = "event: error\ndata: {\"error\":{\"type\":\"overloaded\",\"message\":\"busy\"}}\n\n";
    for cut in 1..text.len() {
        let (first, second) = text.split_at(cut);
        assert!(read_on(vec![chunk(first)]));
        assert_eq!(
            refused(vec![chunk(first), chunk(second)]),
            semantic("overloaded: busy")
        );
    }
    let single: Vec<Arrival> =
        text.as_bytes().chunks(1).map(|part| Arrival::Chunk(part.to_vec())).collect();
    assert_eq!(refused(single), semantic("overloaded: busy"));
}

#[test]
fn white_space_before_the_first_event_is_read_over() {
    let text = " \n\n\r\n\r\n\tdata: x\n\n\n\nevent: error\n\n";
    assert!(read_on(vec![chunk("")]));
    assert!(read_on(vec![chunk(" \n\n"), chunk("\r\n\r\n\t")]));
    for cut in 1..17 {
        let (first, second) = text.split_at(cut);
        assert!(read_on(vec![chunk(first)]));
        assert_eq!(committed(vec![chunk(first), chunk(second)]).chunks.len(), 2);
    }
    assert_eq!(
        refused(vec![chunk("\n"), chunk("\n"), chunk("e"), chunk("vent: error\n"), chunk("\n")]),
        semantic("upstream emitted an error event")
    );
    let replay = committed(vec![chunk(" \n\n"), Arrival::Ended]);
    assert_eq!(replay.tail, ReplayTail::Nothing);
    assert_eq!(body_of(&replay, &[]), " \n\n");
}

#[test]
fn other_payloads_are_handed_on_once_they_show() {
    for text in ["east", "date", "eventual", "datum", "ideal", "retro", "event", "data"] {
        assert!(read_on(vec![chunk(&text[..1])]));
    }
    assert_eq!(committed(vec![chunk("e"), chunk("ast")]).chunks.len(), 2);
    assert_eq!(committed(vec![chunk("dat"), chunk("um")]).chunks.len(), 2);
    assert_eq!(committed(vec![chunk("event"), chunk("ual")]).chunks.len(), 2);
    assert_eq!(committed(vec![chunk("id"), chunk("eal")]).chunks.len(), 2);
    assert_eq!(committed(vec![chunk("retr"), chunk("o")]).chunks.len(), 2);
    assert_eq!(committed(vec![chunk("E")]).chunks.len(), 1);
    assert_eq!(committed(vec![chunk("<html>")]).chunks.len(), 1);
    // Nor is such a payload waited for behind a block without data.
    assert_eq!(committed(vec![chunk(": ping\n\nhello")]).chunks.len(), 1);
}

#[test]
fn blocks_without_data_are_read_over_however_they_are_cut() {
    let lead = ": ping\n\nevent: ping\n\nid: 7\r\n\r\nretry: 5\n\n: more\n";
    let error = format!("{lead}id: 8\nevent: error\ndata: broken\n\n");
    let healthy = format!("{lead}id: 8\ndata: {{}}\n\n");
    assert_eq!(refused(vec![chunk(&error)]), semantic("broken"));
    for cut in 1..error.len() {
        let (first, second) = error.split_at(cut);
        assert!(read_on(vec![chunk(first)]));
        assert_eq!(refused(vec![chunk(first), chunk(second)]), semantic("broken"));
    }
    for cut in 1..healthy.len() {
        let (first, second) = healthy.split_at(cut);
        assert!(read_on(vec![chunk(first)]));
        let replay = committed(vec![chunk(first), chunk(second)]);
        assert_eq!(body_of(&replay, &[]), healthy);
        assert_eq!(replay.tail, ReplayTail::Upstream);
    }
    let replay = committed(vec![chunk(lead), Arrival::Ended]);
    assert_eq!(body_of(&replay, &[]), lead);
    assert_eq!(replay.tail, ReplayTail::Nothing);
}

#[test]
fn the_first_complete_event_commits_the_stream() {
    let replay = committed(vec![
        chunk("event: message\n"),
        chunk("data: {\"choices\":[]}\n\ndata: {\"error\":\"late\"}\n\n"),
        chunk("never read"),
    ]);
    assert_eq!(body_of(&replay, &[]), "event: message\ndata: {\"choices\":[]}\n\ndata: {\"error\":\"late\"}\n\n");
    assert_eq!(replay.chunks.len(), 2);
    assert_eq!(replay.tail, ReplayTail::Upstream);
}

#[test]
fn a_document_in_place_of_a_stream_is_looked_at_as_a_whole() {
    assert_eq!(
        refused(vec![chunk("{\"error\":{\"mess"), chunk("age\":\"split\"}} ")]),
        semantic("split")
    );
    let replay = committed(vec![chunk(" [1,"), chunk("2]")]);
    assert_eq!(replay.tail, ReplayTail::Upstream);
    assert_eq!(replay.chunks.len(), 2);
    // Text that is neither is handed on with its first chunk.
    assert_eq!(committed(vec![chunk("hello"), chunk("world")]).chunks.len(), 1);
}

#[test]
fn the_end_of_a_stream_settles_its_start() {
    let replay = committed(vec![chunk("event: message\n"), Arrival::Ended]);
    assert_eq!(replay.tail, ReplayTail::Nothing);
    assert_eq!(body_of(&replay, &[]), "event: message\n");
    assert_eq!(
        refused(vec![chunk("event: error\ndata: broken"), Arrival::Ended]),
        semantic("broken")
    );
    assert_eq!(
        refused(vec![chunk("event: error"), Arrival::Ended]),
        semantic("upstream emitted an error event")
    );
    assert_eq!(committed(vec![Arrival::Ended]).chunks.len(), 0);
}

#[test]
fn a_stream_without_an_event_is_committed_at_the_limit() {
    let piece = "data: ".to_string() + &"x".repeat(65_530);
    assert_eq!(piece.len(), 65_536);
    assert_eq!(MAX_PRIME_BYTES, 4 * 65_536);
    let mut arrivals: Vec<Arrival> = vec![chunk(&piece)];
    for _ in 0..2 {
        arrivals.push(chunk(&"y".repeat(65_536)));
    }
    arrivals.push(chunk(&"z".repeat(65_535)));
    assert!(read_on(arrivals));
    let mut arrivals: Vec<Arrival> = vec![chunk(&piece)];
    for _ in 0..3 {
        arrivals.push(chunk(&"y".repeat(65_536)));
    }
    match start(arrivals) {
        StartStep::Full(replay) => {
            assert_eq!(replay.chunks.len(), 4);
            assert_eq!(replay.tail, ReplayTail::Upstream);
        }
        _ => panic!("the limit is reached"),
    }
}

#[test]
fn an_event_that_completes_at_the_limit_decides() {
    let piece = "event: error\ndata: ".to_string() + &"x".repeat(MAX_PRIME_BYTES - 30);
    let last = "y".repeat(65_536) + "\n\n";
    let expected = semantic(&("x".repeat(512) + "..."));
    assert_eq!(refused(vec![chunk(&piece), chunk(&last)]), expected);
    let piece = "data: ".to_string() + &"x".repeat(MAX_PRIME_BYTES - 30);
    assert_eq!(committed(vec![chunk(&piece), chunk(&last)]).chunks.len(), 2);
}

#[test]
fn broken_and_slow_starts_are_refused() {
    assert_eq!(
        refused(vec![Arrival::Failed("connection reset".to_string())]),
        ProxyError::ForwardFailed(
            "Failed while validating semantic stream start: connection reset".to_string()
        )
    );
    assert_eq!(
        refused(vec![chunk("data: "), Arrival::TimedOut]),
        ProxyError::Timeout("流式响应首个语义事件超时: 30s".to_string())
    );
}

#[test]
fn bodies_come_back_as_they_were_received() {
    let raw = b"{\"choices\":[]}".to_vec();
    assert_eq!(validate_success_response(raw.clone(), None), Ok(raw));
    let packed = vec![0x1F, 0x8B, 0x08];
    assert_eq!(
        validate_success_response(packed.clone(), Some(b"{\"id\":1}".to_vec())),
        Ok(packed.clone())
    );
    assert_eq!(
        validate_success_response(packed, Some(b"{\"success\":false,\"msg\":\"no\"}".to_vec())),
        Err(semantic("no"))
    );
    assert_eq!(
        validate_success_response(b"{\"error\":\" out of\\nquota \"}".to_vec(), None),
        Err(semantic("out of quota"))
    );
}
