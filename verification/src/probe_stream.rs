//! The Tier A probe on a byte stream.
//!
//! At most the Tier A window of an SSE response is buffered, then the probe
//! decides. While buffering, not a single byte is exposed to the client. What was
//! read is replayed ahead of the still-live upstream stream, byte for byte.

use vstd::prelude::*;
use vstd::utf8::encode_utf8;

use crate::json::{parse_json, parsed_json, Json, JsonView};
use crate::replay::{chunk_bytes, Arrival, ArrivalView, Replay, ReplayTail};
use crate::semantic_detector::{
    effective_event, ProbeDecision, ProbeView, ResponseProbe, SemanticEvidence,
    MAX_TIER_A_WINDOW,
};
use crate::sse::{
    append_utf8_safe, block_len_bounds, data_lines, data_text, decoded, event_name, first_block,
    take_sse_block, undecoded, SseEvent,
};
use crate::text::{chars_of, is_str, lines, lines_of, string_of, text_of, trim, trimmed};

verus! {

/// The time that a probe may buffer: what is asked for, up to the hard cap.
pub open spec fn capped_window(window: u128) -> u128 {
    if window < MAX_TIER_A_WINDOW {
        window
    } else {
        MAX_TIER_A_WINDOW
    }
}

/// The time that a probe may buffer, in nanoseconds: what is asked for, up to the
/// hard cap.
pub fn tier_a_window(window: u128) -> (r: u128)
    ensures
        r == capped_window(window),
        r == (if window < MAX_TIER_A_WINDOW {
            window
        } else {
            MAX_TIER_A_WINDOW
        }),
{
    if window < MAX_TIER_A_WINDOW {
        window
    } else {
        MAX_TIER_A_WINDOW
    }
}

/// The type and the payload of the event that a block holds. A block without a
/// JSON payload (a comment, `[DONE]`) holds none.
pub open spec fn block_event(block: Seq<char>) -> Option<(Seq<char>, JsonView)> {
    let lines = lines_of(block);
    let text = data_text(lines);
    if data_lines(lines).len() == 0 || trimmed(text) == "[DONE]"@ {
        None
    } else {
        match parsed_json(encode_utf8(text)) {
            Some(payload) => Some(
                (
                    effective_event(
                        match event_name(lines) {
                            Some(name) => name,
                            None => seq![],
                        },
                        payload,
                    ),
                    payload,
                ),
            ),
            None => None,
        }
    }
}

/// The type of an event with this payload: its name, or else the `type` of the
/// payload.
pub fn event_type(event: &SseEvent, payload: &Json) -> (r: String)
    ensures
        r@ == effective_event(event.name_text(), payload@),
{
    if let Some(name) = &event.name {
        if name.len() > 0 {
            return string_of(name.as_slice());
        }
    }
    match payload.get_str("type") {
        Some(kind) => kind.to_owned(),
        None => String::new(),
    }
}

fn parse_block(block: &[char]) -> (r: Option<(String, Json)>)
    ensures
        match r {
            Some((kind, payload)) => block_event(block@) == Some((kind@, payload@)),
            None => block_event(block@) is None,
        },
{
    let event: SseEvent = SseEvent::read(&lines(block));
    if event.data.len() == 0 {
        return None;
    }
    let data: Vec<char> = event.text();
    if is_str(trim(data.as_slice()), "[DONE]") {
        return None;
    }
    let text: String = string_of(data.as_slice());
    match parse_json(text.as_str().as_bytes()) {
        Some(payload) => {
            let kind: String = event_type(&event, &payload);
            Some((kind, payload))
        },
        None => None,
    }
}

/// Parse one SSE block into `(event_type, payload)`. Returns `None` for blocks
/// without a JSON `data` payload (comments, `[DONE]`).
pub fn parse_sse_data(block: &str) -> (r: Option<(String, Json)>)
    ensures
        match r {
            Some((kind, payload)) => block_event(block@) == Some((kind@, payload@)),
            None => block_event(block@) is None,
        },
{
    parse_block(chars_of(block).as_slice())
}

/// Result of the Tier A streaming probe.
#[derive(Debug)]
pub enum ProbeOutcome {
    /// No replayable degradation (healthy, unknown, or window timeout).
    Pass {
        response: Replay,
        detected: Option<SemanticEvidence>,
        request_id: Option<String>,
    },
    /// Degradation confirmed before any client byte was written. The response
    /// carries the already-consumed prefix so the caller can either drop it
    /// (abort) or forward it (dry-run).
    Degraded {
        response: Replay,
        evidence: Vec<SemanticEvidence>,
        request_id: Option<String>,
    },
}

/// Result of the Tier A streaming probe.
#[verifier::ext_equal]
pub enum ProbeOutcomeView {
    Pass {
        chunks: Seq<Seq<u8>>,
        tail: ReplayTail,
        detected: Option<SemanticEvidence>,
        request_id: Option<Seq<char>>,
    },
    Degraded {
        chunks: Seq<Seq<u8>>,
        tail: ReplayTail,
        evidence: Seq<SemanticEvidence>,
        request_id: Option<Seq<char>>,
    },
}

impl View for ProbeOutcome {
    type V = ProbeOutcomeView;

    open spec fn view(&self) -> ProbeOutcomeView {
        match *self {
            ProbeOutcome::Pass { response, detected, request_id } => ProbeOutcomeView::Pass {
                chunks: chunk_bytes(response.chunks@),
                tail: response.tail,
                detected,
                request_id: text_of(request_id),
            },
            ProbeOutcome::Degraded { response, evidence, request_id } => ProbeOutcomeView::Degraded {
                chunks: chunk_bytes(response.chunks@),
                tail: response.tail,
                evidence: evidence@,
                request_id: text_of(request_id),
            },
        }
    }
}

/// The state of a probe once the complete blocks of a text have been fed to it,
/// up to the one that decides, and the text that is left.
pub open spec fn fed(probe: ProbeView, text: Seq<char>) -> (ProbeView, Seq<char>)
    decreases text.len(),
{
    proof {
        block_len_bounds(text);
    }
    match first_block(text) {
        Some((block, rest)) => match block_event(block) {
            Some((kind, payload)) => {
                let next = probe.step(kind, payload);
                if next.finished {
                    (next, rest)
                } else {
                    fed(next, rest)
                }
            },
            None => fed(probe, rest),
        },
        None => (probe, text),
    }
}

/// A stream that is being probed.
pub struct SseProbe {
    chunks: Vec<Vec<u8>>,
    text: Vec<char>,
    remainder: Vec<u8>,
    probe: ResponseProbe,
}

/// A stream that is being probed: the chunks so far, the text behind the last
/// complete block, the bytes of a character that is not complete yet, and what
/// the probe has seen.
#[verifier::ext_equal]
pub struct SseProbeView {
    pub chunks: Seq<Seq<u8>>,
    pub text: Seq<char>,
    pub remainder: Seq<u8>,
    pub probe: ProbeView,
}

impl View for SseProbe {
    type V = SseProbeView;

    closed spec fn view(&self) -> SseProbeView {
        SseProbeView {
            chunks: chunk_bytes(self.chunks@),
            text: self.text@,
            remainder: self.remainder@,
            probe: self.probe@,
        }
    }
}

impl SseProbeView {
    /// The state before anything has come.
    pub open spec fn fresh() -> SseProbeView {
        SseProbeView { chunks: seq![], text: seq![], remainder: seq![], probe: ProbeView::fresh() }
    }

    /// What holds of every state in which the stream is still read: the probe has
    /// not decided.
    pub open spec fn valid(self) -> bool {
        self.probe.valid() && !self.probe.finished
    }

    /// The outcome where nothing is to be replayed.
    pub open spec fn pass(self, tail: ReplayTail) -> ProbeOutcomeView {
        ProbeOutcomeView::Pass {
            chunks: self.chunks,
            tail,
            detected: self.probe.last_sample,
            request_id: self.probe.request_id,
        }
    }

    /// The outcome where degradation is confirmed.
    pub open spec fn degraded(self) -> ProbeOutcomeView {
        ProbeOutcomeView::Degraded {
            chunks: self.chunks,
            tail: ReplayTail::Upstream,
            evidence: self.probe.evidence(),
            request_id: self.probe.request_id,
        }
    }

    /// The state once a chunk has come.
    pub open spec fn with_chunk(self, bytes: Seq<u8>) -> SseProbeView {
        let (probe, text) = fed(self.probe, self.text + decoded(self.remainder + bytes));
        SseProbeView {
            chunks: self.chunks.push(bytes),
            text,
            remainder: undecoded(self.remainder + bytes),
            probe,
        }
    }

    /// What is done about an arrival.
    pub open spec fn step(self, arrival: ArrivalView) -> ProbeStepView {
        match arrival {
            ArrivalView::Chunk(bytes) => {
                let next = self.with_chunk(bytes);
                match next.probe.decision() {
                    ProbeDecision::Continue => ProbeStepView::Read(next),
                    ProbeDecision::Pass => ProbeStepView::Done(next.pass(ReplayTail::Upstream)),
                    ProbeDecision::Degraded => ProbeStepView::Done(next.degraded()),
                }
            },
            ArrivalView::Failed(_) => ProbeStepView::Done(self.pass(ReplayTail::Failure)),
            ArrivalView::Ended => ProbeStepView::Done(self.pass(ReplayTail::Upstream)),
            ArrivalView::TimedOut => ProbeStepView::Done(self.pass(ReplayTail::Upstream)),
        }
    }
}

/// What is done about an arrival.
pub enum ProbeStep {
    /// The stream is read on.
    Read(SseProbe),
    /// The probe has decided.
    Done(ProbeOutcome),
}

/// What is done about an arrival.
#[verifier::ext_equal]
pub enum ProbeStepView {
    Read(SseProbeView),
    Done(ProbeOutcomeView),
}

impl View for ProbeStep {
    type V = ProbeStepView;

    open spec fn view(&self) -> ProbeStepView {
        match *self {
            ProbeStep::Read(state) => ProbeStepView::Read(state@),
            ProbeStep::Done(outcome) => ProbeStepView::Done(outcome@),
        }
    }
}

/// Feeds the complete blocks of a text to a probe, up to the one that decides.
fn feed(probe: &mut ResponseProbe, text: &mut Vec<char>) -> (r: ProbeDecision)
    requires
        old(probe)@.valid(),
        !old(probe)@.finished,
    ensures
        (final(probe)@, final(text)@) == fed(old(probe)@, old(text)@),
        final(probe)@.valid(),
        r == final(probe)@.decision(),
{
    loop
        invariant
            probe@.valid(),
            !probe@.finished,
            fed(old(probe)@, old(text)@) == fed(probe@, text@),
        decreases text@.len(),
    {
        proof {
            block_len_bounds(text@);
        }
        match take_sse_block(text) {
            Some(block) => {
                if let Some((kind, payload)) = parse_block(block.as_slice()) {
                    match probe.observe_event(kind.as_str(), &payload) {
                        ProbeDecision::Continue => {},
                        decision => return decision,
                    }
                }
            },
            None => return ProbeDecision::Continue,
        }
    }
}

fn request_id_of(probe: &ResponseProbe) -> (r: Option<String>)
    ensures
        text_of(r) == probe@.request_id,
{
    match probe.request_id() {
        Some(id) => Some(id.to_owned()),
        None => None,
    }
}

/// The outcome where nothing is to be replayed.
fn passed(chunks: Vec<Vec<u8>>, probe: &ResponseProbe, tail: ReplayTail) -> (r: ProbeStep)
    ensures
        r@ == ProbeStepView::Done(
            ProbeOutcomeView::Pass {
                chunks: chunk_bytes(chunks@),
                tail,
                detected: probe@.last_sample,
                request_id: probe@.request_id,
            },
        ),
{
    ProbeStep::Done(
        ProbeOutcome::Pass {
            response: Replay { chunks, tail },
            detected: probe.last_sample(),
            request_id: request_id_of(probe),
        },
    )
}

impl SseProbe {
    /// The probe has not decided.
    #[verifier::type_invariant]
    spec fn undecided(self) -> bool {
        self.probe@.valid() && !self.probe@.finished
    }

    /// Starts to probe a stream.
    pub fn new() -> (r: SseProbe)
        ensures
            r@ == SseProbeView::fresh(),
            r@.valid(),
    {
        let r = SseProbe {
            chunks: Vec::new(),
            text: Vec::new(),
            remainder: Vec::new(),
            probe: ResponseProbe::new(),
        };
        assert(r@ =~= SseProbeView::fresh());
        r
    }

    /// Decides what is done about what reading the stream came to.
    pub fn on_arrival(self, arrival: Arrival) -> (r: ProbeStep)
        ensures
            r@ == self@.step(arrival@),
            r matches ProbeStep::Read(state) ==> state@.valid(),
    {
        proof {
            use_type_invariant(&self);
        }
        let ghost before = self@;
        let mut chunks: Vec<Vec<u8>> = self.chunks;
        let mut text: Vec<char> = self.text;
        let mut remainder: Vec<u8> = self.remainder;
        let mut probe: ResponseProbe = self.probe;
        match arrival {
            Arrival::Chunk(bytes) => {
                let ghost chunk = bytes@;
                append_utf8_safe(&mut text, &mut remainder, bytes.as_slice());
                chunks.push(bytes);
                assert(chunk_bytes(chunks@) =~= before.chunks.push(chunk));
                match feed(&mut probe, &mut text) {
                    ProbeDecision::Continue => ProbeStep::Read(
                        SseProbe { chunks, text, remainder, probe },
                    ),
                    ProbeDecision::Pass => passed(chunks, &probe, ReplayTail::Upstream),
                    ProbeDecision::Degraded => ProbeStep::Done(
                        ProbeOutcome::Degraded {
                            response: Replay { chunks, tail: ReplayTail::Upstream },
                            evidence: probe.evidence(),
                            request_id: request_id_of(&probe),
                        },
                    ),
                }
            },
            Arrival::Failed(_) => passed(chunks, &probe, ReplayTail::Failure),
            Arrival::Ended => passed(chunks, &probe, ReplayTail::Upstream),
            Arrival::TimedOut => passed(chunks, &probe, ReplayTail::Upstream),
        }
    }
}

} // verus!
