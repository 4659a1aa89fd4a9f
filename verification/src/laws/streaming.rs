//! What holds of streams that are probed.

use vstd::prelude::*;
use vstd::utf8::encode_utf8;

use crate::laws::decoding::{complete_blocks_stay, decoding_in_parts, decoding_undoes_encoding};
use crate::laws::detection::{
    confirmed_at, decisions_are_final, one_step_keeps_validity,
    replay_needs_two_independent_samples, run, run_in_parts, EventView,
};
use crate::probe_stream::{block_event, capped_window, fed, ProbeOutcomeView, ProbeStepView, SseProbeView};
use crate::replay::{ArrivalView, ReplayTail};
use crate::semantic_detector::{ProbeDecision, ProbeView, SemanticEvidence};
use crate::sse::{block_len_bounds, decoded, first_block, undecoded};

verus! {

/// A probe never buffers longer than 200 milliseconds, nor longer than it is asked
/// to, and no shorter than one of the two.
pub proof fn windows_are_capped(window: u128)
    ensures
        capped_window(window) <= 200_000_000,
        capped_window(window) <= window,
        capped_window(window) == window || capped_window(window) == 200_000_000,
{
}

/// The chunks among what came, in order.
pub open spec fn chunks_in(arrivals: Seq<ArrivalView>) -> Seq<Seq<u8>>
    decreases arrivals.len(),
{
    if arrivals.len() == 0 {
        seq![]
    } else {
        match arrivals.last() {
            ArrivalView::Chunk(bytes) => chunks_in(arrivals.drop_last()).push(bytes),
            _ => chunks_in(arrivals.drop_last()),
        }
    }
}

/// The bytes of chunks, one behind the other.
pub open spec fn all_bytes(chunks: Seq<Seq<u8>>) -> Seq<u8>
    decreases chunks.len(),
{
    if chunks.len() == 0 {
        seq![]
    } else {
        all_bytes(chunks.drop_last()) + chunks.last()
    }
}

/// What a probe on a stream comes to. It stops reading once it has decided.
pub open spec fn probed(arrivals: Seq<ArrivalView>) -> ProbeStepView
    decreases arrivals.len(),
{
    if arrivals.len() == 0 {
        ProbeStepView::Read(SseProbeView::fresh())
    } else {
        match probed(arrivals.drop_last()) {
            ProbeStepView::Read(state) => state.step(arrivals.last()),
            ProbeStepView::Done(outcome) => ProbeStepView::Done(outcome),
        }
    }
}

impl ProbeOutcomeView {
    /// The chunks that are replayed.
    pub open spec fn replayed(self) -> Seq<Seq<u8>> {
        match self {
            ProbeOutcomeView::Pass { chunks, .. } => chunks,
            ProbeOutcomeView::Degraded { chunks, .. } => chunks,
        }
    }

    /// What follows the chunks that are replayed.
    pub open spec fn follows(self) -> ReplayTail {
        match self {
            ProbeOutcomeView::Pass { tail, .. } => tail,
            ProbeOutcomeView::Degraded { tail, .. } => tail,
        }
    }
}

/// Whether a probe decides at the arrival with this place, with this outcome.
pub open spec fn probe_decides(
    arrivals: Seq<ArrivalView>,
    n: int,
    outcome: ProbeOutcomeView,
) -> bool {
    &&& 0 <= n < arrivals.len()
    &&& probed(arrivals.take(n)) is Read
    &&& probed(arrivals.take(n + 1)) == ProbeStepView::Done(outcome)
}

/// A probe replays exactly the chunks that it has read, in order and byte for
/// byte, whether the stream passes or is degraded. What is left of the upstream
/// stream follows, or the failure where reading failed.
pub proof fn probes_replay_every_byte(arrivals: Seq<ArrivalView>)
    ensures
        match probed(arrivals) {
            ProbeStepView::Read(state) => state.chunks == chunks_in(arrivals),
            ProbeStepView::Done(outcome) => exists|n: int|
                {
                    &&& #[trigger] probe_decides(arrivals, n, outcome)
                    &&& outcome.replayed() == chunks_in(arrivals.take(n + 1))
                    &&& outcome.follows() == (if arrivals[n] is Failed {
                        ReplayTail::Failure
                    } else {
                        ReplayTail::Upstream
                    })
                },
        },
    decreases arrivals.len(),
{
    if arrivals.len() > 0 {
        let shorter = arrivals.drop_last();
        probes_replay_every_byte(shorter);
        let last = arrivals.len() - 1;
        match probed(shorter) {
            ProbeStepView::Read(state) => {
                if let ProbeStepView::Done(outcome) = probed(arrivals) {
                    assert(arrivals.take(last) == shorter);
                    assert(arrivals.take(last + 1) == arrivals);
                    assert(probe_decides(arrivals, last, outcome));
                }
            },
            ProbeStepView::Done(outcome) => {
                let n = choose|n: int|
                    {
                        &&& #[trigger] probe_decides(shorter, n, outcome)
                        &&& outcome.replayed() == chunks_in(shorter.take(n + 1))
                        &&& outcome.follows() == (if shorter[n] is Failed {
                            ReplayTail::Failure
                        } else {
                            ReplayTail::Upstream
                        })
                    };
                assert(arrivals.take(n) == shorter.take(n));
                assert(arrivals.take(n + 1) == shorter.take(n + 1));
                assert(probe_decides(arrivals, n, outcome));
            },
        }
    }
}

/// Only bytes confirm degradation: where the stream ends, breaks or is too slow,
/// it passes.
pub proof fn only_bytes_degrade(state: SseProbeView, arrival: ArrivalView)
    requires
        !(arrival is Chunk),
    ensures
        state.step(arrival) matches ProbeStepView::Done(ProbeOutcomeView::Pass { .. }),
        state.step(arrival) == ProbeStepView::Done(
            ProbeOutcomeView::Pass {
                chunks: state.chunks,
                tail: if arrival is Failed {
                    ReplayTail::Failure
                } else {
                    ReplayTail::Upstream
                },
                detected: state.probe.last_sample,
                request_id: state.probe.request_id,
            },
        ),
{
}

/// What a probe has decided does not change with text that comes behind it, and
/// as long as it has not decided it goes on from where it was.
proof fn fed_in_parts(probe: ProbeView, text: Seq<char>, more: Seq<char>)
    requires
        !probe.finished,
    ensures
        ({
            let (next, rest) = fed(probe, text);
            fed(probe, text + more) == (if next.finished {
                (next, rest + more)
            } else {
                fed(next, rest + more)
            })
        }),
    decreases text.len(),
{
    block_len_bounds(text);
    complete_blocks_stay(text, more);
    match first_block(text) {
        Some((block, rest)) => match block_event(block) {
            Some((kind, payload)) => {
                let next = probe.step(kind, payload);
                if !next.finished {
                    fed_in_parts(next, rest, more);
                }
            },
            None => {
                fed_in_parts(probe, rest, more);
            },
        },
        None => {},
    }
}

/// The arrivals of a stream that gives these chunks.
pub open spec fn arrivals_of(chunks: Seq<Seq<u8>>) -> Seq<ArrivalView>
    decreases chunks.len(),
{
    if chunks.len() == 0 {
        seq![]
    } else {
        arrivals_of(chunks.drop_last()).push(ArrivalView::Chunk(chunks.last()))
    }
}

/// What the probe of a stream has seen of these bytes.
pub open spec fn seen_in(bytes: Seq<u8>) -> ProbeView {
    fed(ProbeView::fresh(), decoded(bytes)).0
}

/// What a probe has found out about a stream: its decision, the evidence of
/// degradation, what it saw last elsewhere, and the request id.
#[verifier::ext_equal]
pub struct Verdict {
    pub decision: ProbeDecision,
    pub evidence: Option<Seq<SemanticEvidence>>,
    pub detected: Option<SemanticEvidence>,
    pub request_id: Option<Seq<char>>,
}

/// The verdict on a stream. The chunks are not in it.
pub open spec fn verdict(step: ProbeStepView) -> Verdict {
    match step {
        ProbeStepView::Read(state) => verdict_of(state.probe),
        ProbeStepView::Done(ProbeOutcomeView::Pass { detected, request_id, .. }) => Verdict {
            decision: ProbeDecision::Pass,
            evidence: None,
            detected,
            request_id,
        },
        ProbeStepView::Done(ProbeOutcomeView::Degraded { evidence, request_id, .. }) => Verdict {
            decision: ProbeDecision::Degraded,
            evidence: Some(evidence),
            detected: None,
            request_id,
        },
    }
}

/// The verdict that a probe with this state stands for.
pub open spec fn verdict_of(probe: ProbeView) -> Verdict {
    if probe.decision() == ProbeDecision::Degraded {
        Verdict {
            decision: ProbeDecision::Degraded,
            evidence: Some(probe.evidence()),
            detected: None,
            request_id: probe.request_id,
        }
    } else {
        Verdict {
            decision: probe.decision(),
            evidence: None,
            detected: probe.last_sample,
            request_id: probe.request_id,
        }
    }
}

/// Feeding text keeps a probe valid.
proof fn feeding_keeps_validity(probe: ProbeView, text: Seq<char>)
    requires
        probe.valid(),
    ensures
        fed(probe, text).0.valid(),
    decreases text.len(),
{
    block_len_bounds(text);
    if let Some((block, rest)) = first_block(text) {
        match block_event(block) {
            Some((kind, payload)) => {
                one_step_keeps_validity(probe, kind, payload);
                feeding_keeps_validity(probe.step(kind, payload), rest);
            },
            None => feeding_keeps_validity(probe, rest),
        }
    }
}

/// The verdict on a stream is the verdict on its bytes taken as a whole.
pub proof fn verdicts_rest_on_the_bytes(chunks: Seq<Seq<u8>>)
    ensures
        verdict(probed(arrivals_of(chunks))) == verdict_of(seen_in(all_bytes(chunks))),
        probed(arrivals_of(chunks)) matches ProbeStepView::Read(state) ==> {
            &&& fed(ProbeView::fresh(), decoded(all_bytes(chunks))) == (state.probe, state.text)
            &&& state.remainder == undecoded(all_bytes(chunks))
        },
        probed(arrivals_of(chunks)) is Done <==> seen_in(all_bytes(chunks)).finished,
    decreases chunks.len(),
{
    let bytes = all_bytes(chunks);
    let fresh = ProbeView::fresh();
    feeding_keeps_validity(fresh, decoded(bytes));
    if chunks.len() > 0 {
        let shorter = chunks.drop_last();
        let last = chunks.last();
        verdicts_rest_on_the_bytes(shorter);
        assert(arrivals_of(chunks).drop_last() == arrivals_of(shorter));
        let before = all_bytes(shorter);
        decoding_in_parts(before, last);
        let more = decoded(undecoded(before) + last);
        fed_in_parts(fresh, decoded(before), more);
    } else {
        assert(decoded(bytes) == Seq::<char>::empty());
        assert(undecoded(bytes) == bytes);
        assert(first_block(Seq::<char>::empty()) is None);
    }
}

/// How the network cuts a stream into chunks does not matter: the same bytes get
/// the same decision with the same evidence and request id.
pub proof fn chunking_does_not_matter(one: Seq<Seq<u8>>, other: Seq<Seq<u8>>)
    requires
        all_bytes(one) == all_bytes(other),
    ensures
        verdict(probed(arrivals_of(one))) == verdict(probed(arrivals_of(other))),
{
    verdicts_rest_on_the_bytes(one);
    verdicts_rest_on_the_bytes(other);
}

/// The events of the complete blocks of a text, in order.
pub open spec fn events_in(text: Seq<char>) -> Seq<EventView>
    decreases text.len(),
{
    proof {
        block_len_bounds(text);
    }
    match first_block(text) {
        Some((block, rest)) => match block_event(block) {
            Some((kind, payload)) => seq![EventView { name: kind, payload }] + events_in(rest),
            None => events_in(rest),
        },
        None => seq![],
    }
}

/// Feeding a text is feeding its events.
pub proof fn feeding_text_feeds_its_events(probe: ProbeView, text: Seq<char>)
    requires
        !probe.finished,
    ensures
        fed(probe, text).0 == run(probe, events_in(text)),
    decreases text.len(),
{
    block_len_bounds(text);
    if let Some((block, rest)) = first_block(text) {
        match block_event(block) {
            Some((kind, payload)) => {
                let next = probe.step(kind, payload);
                let first = seq![EventView { name: kind, payload }];
                assert(first.drop_last() == Seq::<EventView>::empty());
                assert(run(probe, first.drop_last()) == probe);
                assert(run(probe, first) == next);
                run_in_parts(probe, first, events_in(rest));
                if next.finished {
                    decisions_are_final(next, events_in(rest));
                } else {
                    feeding_text_feeds_its_events(next, rest);
                }
            },
            None => feeding_text_feeds_its_events(probe, rest),
        }
    }
}

/// A stream of text is found degraded if and only if its first event carries a
/// suspect `response.created` id and the first `response.output_item.added` event
/// carries a suspect id too, within the first five events, however the bytes are cut
/// into chunks.
pub proof fn streams_degrade_by_their_events(text: Seq<char>, chunks: Seq<Seq<u8>>)
    requires
        all_bytes(chunks) == encode_utf8(text),
    ensures
        verdict(probed(arrivals_of(chunks))).decision == ProbeDecision::Degraded
            <==> exists|k: int| confirmed_at(events_in(text), k),
{
    verdicts_rest_on_the_bytes(chunks);
    decoding_undoes_encoding(text);
    feeding_text_feeds_its_events(ProbeView::fresh(), text);
    replay_needs_two_independent_samples(events_in(text));
}

} // verus!
