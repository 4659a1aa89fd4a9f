//! What holds of the Tier A probe over whole sequences of events.

use vstd::prelude::*;

use crate::json::JsonView;
use crate::laws::identifying::{
    hex_from, item_ids_by_characters, item_like, response_ids_by_characters, response_like,
    two_kinds_of_events_are_looked_at,
};
use crate::laws::wording::occurrences_split_the_text;
use crate::semantic_detector::{
    claims_no_tools, effective_event, hex_id, item_32_hex, item_id, item_observation,
    no_tools_phrases, observation, response_id, response_observation, IdVerdict, ProbeDecision, ProbeView, SemanticEvidence, TierBInput, TierBSignal,
};
use crate::text::{lowered, occurs_in};

verus! {

/// An event as it is fed to the probe: its name and its payload.
#[verifier::ext_equal]
pub struct EventView {
    pub name: Seq<char>,
    pub payload: JsonView,
}

impl EventView {
    /// The type of the event.
    pub open spec fn kind(self) -> Seq<char> {
        effective_event(self.name, self.payload)
    }

    /// Whether the event carries an id of the degraded shape: a response id of
    /// `resp_` and 32 characters, or an item id of its prefix and 32 characters, each
    /// one of 0 to 9 and a to f.
    pub open spec fn suspect(self) -> bool {
        ||| self.creates() && (response_id(self.payload) matches Some(id) && id.len() == 37
            && response_like(id) && hex_from(id, 5))
        ||| self.adds_item() && (item_id(self.payload) matches Some(id) && item_like(id) > 0
            && id.len() == item_like(id) + 32 && hex_from(id, item_like(id)))
    }

    /// Whether the event creates a response.
    pub open spec fn creates(self) -> bool {
        self.kind() == "response.created"@
    }

    /// Whether the event adds an output item.
    pub open spec fn adds_item(self) -> bool {
        self.kind() == "response.output_item.added"@
    }
}

/// What is observed of an event is suspect if and only if its id has the degraded
/// shape, and the evidence says of which kind the id is.
pub proof fn suspects_are_observed(event: EventView)
    ensures
        event.suspect() <==> observation(event.kind(), event.payload).verdict
            == IdVerdict::Suspect,
        event.suspect() && event.creates() ==> observation(event.kind(), event.payload).evidence
            == SemanticEvidence::ResponseId32Hex,
        event.suspect() && event.adds_item() ==> observation(event.kind(), event.payload).evidence
            == SemanticEvidence::ItemId32Hex,
        event.suspect() ==> event.creates() || event.adds_item(),
        !(event.creates() && event.adds_item()),
{
    kinds_differ();
    two_kinds_of_events_are_looked_at(event.kind(), event.payload);
    if let Some(id) = response_id(event.payload) {
        response_ids_by_characters(id);
    } else {
        response_ids_by_characters(Seq::empty());
    }
    if let Some(id) = item_id(event.payload) {
        item_ids_by_characters(id);
    } else {
        item_ids_by_characters(Seq::empty());
    }
}

/// The state of a probe that events have been fed to, in order.
pub open spec fn run(probe: ProbeView, events: Seq<EventView>) -> ProbeView
    decreases events.len(),
{
    if events.len() == 0 {
        probe
    } else {
        run(probe, events.drop_last()).step(events.last().name, events.last().payload)
    }
}

/// Every state that a probe reaches is valid.
pub proof fn every_state_is_valid(events: Seq<EventView>)
    ensures
        run(ProbeView::fresh(), events).valid(),
    decreases events.len(),
{
    if events.len() > 0 {
        every_state_is_valid(events.drop_last());
        one_step_keeps_validity(
            run(ProbeView::fresh(), events.drop_last()),
            events.last().name,
            events.last().payload,
        );
    }
}

/// An event leads from a valid state to a valid state.
pub proof fn one_step_keeps_validity(probe: ProbeView, name: Seq<char>, payload: JsonView)
    requires
        probe.valid(),
    ensures
        probe.step(name, payload).valid(),
{
    kinds_differ();
}

proof fn kinds_differ()
    ensures
        "response.created"@ != "response.output_item.added"@,
{
    reveal_strlit("response.created");
    reveal_strlit("response.output_item.added");
    assert("response.created"@.len() != "response.output_item.added"@.len());
}

/// Once a probe has decided, no event changes anything.
pub proof fn decisions_are_final(probe: ProbeView, events: Seq<EventView>)
    requires
        probe.finished,
    ensures
        run(probe, events) == probe,
    decreases events.len(),
{
    if events.len() > 0 {
        decisions_are_final(probe, events.drop_last());
    }
}

/// Feeding events in two parts is feeding them at once.
pub proof fn run_in_parts(probe: ProbeView, first: Seq<EventView>, second: Seq<EventView>)
    ensures
        run(probe, first + second) == run(run(probe, first), second),
    decreases second.len(),
{
    if second.len() == 0 {
        assert(first + second == first);
    } else {
        assert((first + second).drop_last() == first + second.drop_last());
        run_in_parts(probe, first, second.drop_last());
    }
}

/// The probe has decided after at most five events.
pub proof fn the_window_closes(events: Seq<EventView>)
    requires
        events.len() >= 5,
    ensures
        run(ProbeView::fresh(), events).decision() != ProbeDecision::Continue,
{
    every_state_is_valid(events);
    if !run(ProbeView::fresh(), events).finished {
        events_are_counted(events);
    }
}

/// As long as a probe has not decided it counts every event.
proof fn events_are_counted(events: Seq<EventView>)
    requires
        !run(ProbeView::fresh(), events).finished,
    ensures
        run(ProbeView::fresh(), events).events_seen == events.len(),
    decreases events.len(),
{
    if events.len() > 0 {
        events_are_counted(events.drop_last());
    }
}

/// Whether the events up to the one at `k` confirm degradation: the first one
/// creates a response with a suspect id, the one at `k` adds the first output
/// item, with a suspect id, and it is among the first five.
pub open spec fn confirmed_at(events: Seq<EventView>, k: int) -> bool {
    &&& 1 <= k < events.len()
    &&& k < 5
    &&& events[0].creates() && events[0].suspect()
    &&& events[k].adds_item() && events[k].suspect()
    &&& forall|j: int| 1 <= j < k ==> !(#[trigger] events[j]).adds_item()
}

/// Replay is confirmed if and only if the first event carries a suspect
/// `response.created` id and the first `response.output_item.added` event, within
/// the first five events, carries a suspect id too.
pub proof fn replay_needs_two_independent_samples(events: Seq<EventView>)
    ensures
        run(ProbeView::fresh(), events).decision() == ProbeDecision::Degraded <==> exists|k: int|
            confirmed_at(events, k),
{
    window_state(events);
}

/// Whether the window is still open after these events: they are fewer than
/// five, the first one creates a response with a suspect id, and none of the others
/// adds an output item.
pub open spec fn window_open(events: Seq<EventView>) -> bool {
    &&& events.len() < 5
    &&& events.len() > 0 ==> events[0].creates() && events[0].suspect()
    &&& forall|j: int| 1 <= j < events.len() ==> !(#[trigger] events[j]).adds_item()
}

/// The probe goes on buffering exactly as long as the window is open. It closes at
/// a first event that is not a suspect `response.created`, at the first added
/// output item whatever its id is, and at the event cap.
pub proof fn buffering_ends_with_the_window(events: Seq<EventView>)
    ensures
        run(ProbeView::fresh(), events).decision() == ProbeDecision::Continue <==> window_open(
            events,
        ),
{
    window_state(events);
    every_state_is_valid(events);
}

/// What a probe has decided after any sequence of events.
proof fn window_state(events: Seq<EventView>)
    ensures
        run(ProbeView::fresh(), events).finished <==> !window_open(events),
        run(ProbeView::fresh(), events).degraded <==> exists|k: int| confirmed_at(events, k),
        !run(ProbeView::fresh(), events).finished ==> run(
            ProbeView::fresh(),
            events,
        ).first_event_seen == (events.len() > 0),
    decreases events.len(),
{
    every_state_is_valid(events);
    kinds_differ();
    if events.len() > 0 {
        suspects_are_observed(events[0]);
        suspects_are_observed(events.last());
        let shorter = events.drop_last();
        let before = run(ProbeView::fresh(), shorter);
        let after = run(ProbeView::fresh(), events);
        let last = events.last();
        window_state(shorter);
        every_state_is_valid(shorter);
        let n = shorter.len() as int;
        assert forall|k: int| confirmed_at(shorter, k) implies confirmed_at(events, k) by {
            assert forall|j: int| 1 <= j < k implies !(#[trigger] events[j]).adds_item() by {
                assert(events[j] == shorter[j]);
            }
        }
        assert forall|k: int| confirmed_at(events, k) && k < n implies confirmed_at(
            shorter,
            k,
        ) by {
            assert forall|j: int| 1 <= j < k implies !(#[trigger] shorter[j]).adds_item() by {
                assert(events[j] == shorter[j]);
            }
        }
        if before.finished {
            assert(after == before);
            if before.degraded {
                let k = choose|k: int| confirmed_at(shorter, k);
                assert(confirmed_at(events, k));
            }
            if exists|k: int| confirmed_at(events, k) {
                let k = choose|k: int| confirmed_at(events, k);
                if k == n {
                    assert(window_open(shorter)) by {
                        assert forall|j: int| 1 <= j < n implies !(
                        #[trigger] shorter[j]).adds_item() by {
                            assert(events[j] == shorter[j]);
                        }
                    }
                }
            }
            if window_open(events) {
                assert(window_open(shorter)) by {
                    assert forall|j: int| 1 <= j < n implies !(#[trigger] shorter[j]).adds_item() by {
                        assert(events[j] == shorter[j]);
                    }
                }
            }
        } else {
            events_are_counted(shorter);
            assert(window_open(shorter));
            assert(!(exists|k: int| confirmed_at(shorter, k)));
            assert(forall|j: int| 1 <= j < n ==> events[j] == shorter[j]);
            assert(forall|j: int| 1 <= j < n ==> !(#[trigger] events[j]).adds_item());
            if n == 0 {
                assert(events[0] == last);
            } else {
                assert(events[0] == shorter[0]);
                assert(before.first_event_suspect);
                if last.adds_item() && last.suspect() {
                    assert(confirmed_at(events, n));
                    assert(after.degraded);
                }
                if exists|k: int| confirmed_at(events, k) {
                    let k = choose|k: int| confirmed_at(events, k);
                    assert(k == n);
                }
            }
        }
    }
}

/// A first event that is not a suspect `response.created` ends the probe at once
/// with a pass, whatever follows. In particular a healthy stream is passed on its
/// first event, and so is one of an unknown shape.
pub proof fn other_first_events_never_replay(events: Seq<EventView>)
    requires
        events.len() > 0,
        !(events[0].creates() && events[0].suspect()),
    ensures
        run(ProbeView::fresh(), events) == run(ProbeView::fresh(), events.take(1)),
        run(ProbeView::fresh(), events).decision() == ProbeDecision::Pass,
        run(ProbeView::fresh(), events).evidence().len() == 0,
{
    suspects_are_observed(events[0]);
    let first = events.take(1);
    assert(first + events.skip(1) == events);
    run_in_parts(ProbeView::fresh(), first, events.skip(1));
    assert(first.drop_last() == Seq::<EventView>::empty());
    assert(run(ProbeView::fresh(), first.drop_last()) == ProbeView::fresh());
    decisions_are_final(run(ProbeView::fresh(), first), events.skip(1));
}

/// Where degradation is confirmed, the evidence is the two suspect samples in
/// their order, and the request id is the one that the first event carries.
pub proof fn degraded_evidence_is_exact(events: Seq<EventView>)
    requires
        run(ProbeView::fresh(), events).decision() == ProbeDecision::Degraded,
    ensures
        run(ProbeView::fresh(), events).evidence() == seq![
            SemanticEvidence::ResponseId32Hex,
            SemanticEvidence::ItemId32Hex,
        ],
        run(ProbeView::fresh(), events).suspect_count() == 2,
        run(ProbeView::fresh(), events).request_id == response_id(events[0].payload),
{
    replay_needs_two_independent_samples(events);
    request_id_is_the_first(events);
    evidence_is_what_the_window_gave(events);
}

/// The evidence is the sample of the first event where that is a suspect one, and
/// behind it the sample of the added item where degradation is confirmed.
pub proof fn evidence_is_what_the_window_gave(events: Seq<EventView>)
    ensures
        run(ProbeView::fresh(), events).evidence() == (if exists|k: int| confirmed_at(events, k) {
            seq![SemanticEvidence::ResponseId32Hex, SemanticEvidence::ItemId32Hex]
        } else if events.len() > 0 && events[0].creates() && events[0].suspect() {
            seq![SemanticEvidence::ResponseId32Hex]
        } else {
            Seq::empty()
        }),
        run(ProbeView::fresh(), events).suspect_count() == run(
            ProbeView::fresh(),
            events,
        ).evidence().len(),
{
    every_state_is_valid(events);
    window_state(events);
    first_events_are_kept(events);
    let evidence = run(ProbeView::fresh(), events).evidence();
    assert(evidence =~= (if exists|k: int| confirmed_at(events, k) {
        seq![SemanticEvidence::ResponseId32Hex, SemanticEvidence::ItemId32Hex]
    } else if events.len() > 0 && events[0].creates() && events[0].suspect() {
        seq![SemanticEvidence::ResponseId32Hex]
    } else {
        Seq::empty()
    }));
}

proof fn first_events_are_kept(events: Seq<EventView>)
    ensures
        run(ProbeView::fresh(), events).first_event_seen == (events.len() > 0),
        run(ProbeView::fresh(), events).first_event_suspect <==> events.len() > 0
            && events[0].creates() && events[0].suspect(),
    decreases events.len(),
{
    if events.len() > 0 {
        let shorter = events.drop_last();
        first_events_are_kept(shorter);
        every_state_is_valid(shorter);
        suspects_are_observed(events[0]);
        if events.len() == 1 {
            assert(run(ProbeView::fresh(), shorter) == ProbeView::fresh());
            assert(events.last() == events[0]);
        } else {
            assert(shorter[0] == events[0]);
        }
    }
}

/// The request id is the id that the first event carries, where that event creates a
/// response. No later event gives one.
pub proof fn request_id_is_the_first(events: Seq<EventView>)
    ensures
        run(ProbeView::fresh(), events).request_id == (if events.len() > 0
            && events[0].creates() {
            response_id(events[0].payload)
        } else {
            None
        }),
    decreases events.len(),
{
    if events.len() > 0 {
        let shorter = events.drop_last();
        request_id_is_the_first(shorter);
        if events.len() > 1 {
            assert(shorter[0] == events[0]);
            window_state(shorter);
            suspects_are_observed(events[0]);
        } else {
            assert(run(ProbeView::fresh(), shorter) == ProbeView::fresh());
            assert(events.last() == events[0]);
        }
    }
}

/// As long as the window was open before it, the last event is the one that was seen
/// last, with the evidence that its id gives.
pub proof fn what_was_seen_last(events: Seq<EventView>)
    requires
        events.len() > 0,
    ensures
        window_open(events.drop_last()) ==> run(ProbeView::fresh(), events).last_sample == Some(
            observation(events.last().kind(), events.last().payload).evidence,
        ),
        !window_open(events.drop_last()) ==> run(ProbeView::fresh(), events).last_sample == run(
            ProbeView::fresh(),
            events.drop_last(),
        ).last_sample,
{
    window_state(events.drop_last());
}

/// An event whose id is not suspect never confirms degradation.
pub proof fn only_suspect_samples_degrade(probe: ProbeView, event: EventView)
    requires
        probe.valid(),
        probe.decision() != ProbeDecision::Degraded,
        !event.suspect(),
    ensures
        probe.step(event.name, event.payload).decision() != ProbeDecision::Degraded,
        probe.step(event.name, event.payload).samples == probe.samples,
{
    suspects_are_observed(event);
}

/// Closing the window early confirms nothing: the decision is `Degraded` only
/// where it was before, and a pass elsewhere.
pub proof fn closing_never_degrades(events: Seq<EventView>)
    ensures
        run(ProbeView::fresh(), events).closed().decision() == (if run(
            ProbeView::fresh(),
            events,
        ).decision() == ProbeDecision::Degraded {
            ProbeDecision::Degraded
        } else {
            ProbeDecision::Pass
        }),
        run(ProbeView::fresh(), events).closed().evidence() == run(
            ProbeView::fresh(),
            events,
        ).evidence(),
        run(ProbeView::fresh(), events).closed().request_id == run(
            ProbeView::fresh(),
            events,
        ).request_id,
        run(ProbeView::fresh(), events).closed().last_sample == run(
            ProbeView::fresh(),
            events,
        ).last_sample,
{
    every_state_is_valid(events);
}

/// The evidence of a probe lists each of its samples once.
pub proof fn evidence_lists_every_sample_once(probe: ProbeView)
    requires
        probe.valid(),
    ensures
        probe.evidence().no_duplicates(),
        probe.evidence().to_set() == probe.samples,
        probe.evidence().len() == probe.suspect_count(),
{
    let evidence = probe.evidence();
    let response = SemanticEvidence::ResponseId32Hex;
    let item = SemanticEvidence::ItemId32Hex;
    assert(!probe.samples.contains(SemanticEvidence::SessionScopedItemId));
    assert(!probe.samples.contains(SemanticEvidence::UnknownResponseId));
    assert(!probe.samples.contains(SemanticEvidence::UnknownItemId));
    if probe.samples.contains(response) {
        assert(evidence[0] == response);
        if probe.samples.contains(item) {
            assert(evidence[1] == item);
        }
    }
    assert forall|e: SemanticEvidence| evidence.to_set().contains(e) <==> probe.samples.contains(
        e,
    ) by {
        if probe.samples.contains(e) {
            assert(e.suspect());
            assert(e == response || e == item);
        }
    }
    assert(evidence.to_set() =~= probe.samples);
}

/// Classification is a whitelist: an id of a response is suspect if and only if it
/// is `resp_` and exactly 32 lowercase hexadecimal digits, known to be good if and
/// only if it has exactly 50 of them, and unknown otherwise; an id of an item is
/// suspect if and only if it has the shape with 32 digits, and never known to be
/// good.
pub proof fn classification_is_a_whitelist(id: Seq<char>)
    ensures
        response_observation(Some(id)).verdict == IdVerdict::Suspect <==> hex_id(
            id,
            "resp_"@,
            32,
        ),
        response_observation(Some(id)).verdict == IdVerdict::KnownGood <==> hex_id(
            id,
            "resp_"@,
            50,
        ),
        item_observation(Some(id)).verdict == IdVerdict::Suspect <==> item_32_hex(id),
        item_observation(Some(id)).verdict != IdVerdict::KnownGood,
        response_observation(None).verdict == IdVerdict::Unknown,
        item_observation(None).verdict == IdVerdict::Unknown,
{
}

/// An observation has a suspect verdict if and only if its evidence is suspect.
pub proof fn suspect_verdicts_have_suspect_evidence(event: EventView)
    ensures
        event.suspect() <==> observation(event.kind(), event.payload).evidence.suspect(),
{
    suspects_are_observed(event);
}

/// Different evidence has different names in logs and in the audit table.
pub proof fn evidence_names_differ(one: SemanticEvidence, other: SemanticEvidence)
    ensures
        one.name() == other.name() <==> one == other,
{
    reveal_strlit("response_id_known_good");
    reveal_strlit("response_id_32hex");
    reveal_strlit("item_id_32hex");
    reveal_strlit("item_id_session_scoped");
    reveal_strlit("response_id_unknown");
    reveal_strlit("item_id_unknown");
    assert("response_id_known_good"@[0] == 'r');
    assert("item_id_session_scoped"@[0] == 'i');
    assert(one.name().len() == other.name().len() && one.name()[0] == other.name()[0] ==> one
        == other);
}

/// Each evidence has its own name in logs and in the audit table, and the name tells
/// which evidence it is.
pub proof fn evidence_is_told_by_its_name(evidence: SemanticEvidence)
    ensures
        evidence.name() == "response_id_known_good"@ <==> evidence
            == SemanticEvidence::ResponseIdKnownGood,
        evidence.name() == "response_id_32hex"@ <==> evidence == SemanticEvidence::ResponseId32Hex,
        evidence.name() == "item_id_32hex"@ <==> evidence == SemanticEvidence::ItemId32Hex,
        evidence.name() == "item_id_session_scoped"@ <==> evidence
            == SemanticEvidence::SessionScopedItemId,
        evidence.name() == "response_id_unknown"@ <==> evidence
            == SemanticEvidence::UnknownResponseId,
        evidence.name() == "item_id_unknown"@ <==> evidence == SemanticEvidence::UnknownItemId,
{
    evidence_names_differ(evidence, SemanticEvidence::ResponseIdKnownGood);
    evidence_names_differ(evidence, SemanticEvidence::ResponseId32Hex);
    evidence_names_differ(evidence, SemanticEvidence::ItemId32Hex);
    evidence_names_differ(evidence, SemanticEvidence::SessionScopedItemId);
    evidence_names_differ(evidence, SemanticEvidence::UnknownResponseId);
    evidence_names_differ(evidence, SemanticEvidence::UnknownItemId);
}

/// Each signal has its own name in the audit table, and the name tells which signal it
/// is.
pub proof fn signals_are_told_by_their_names(signal: TierBSignal)
    ensures
        signal.name() == "usage_collapse"@ <==> signal == TierBSignal::UsageCollapse,
        signal.name() == "tools_requested_but_no_tool_call"@ <==> signal
            == TierBSignal::ToolsRequestedButNoToolCall,
        signal.name() == "self_reported_no_tools"@ <==> signal == TierBSignal::SelfReportedNoTools,
{
    reveal_strlit("usage_collapse");
    reveal_strlit("tools_requested_but_no_tool_call");
    reveal_strlit("self_reported_no_tools");
    assert(signal.name().len() == 14 <==> signal == TierBSignal::UsageCollapse);
    assert(signal.name().len() == 22 <==> signal == TierBSignal::SelfReportedNoTools);
}

/// The order in which signals are reported.
pub open spec fn place_of(signal: TierBSignal) -> int {
    match signal {
        TierBSignal::UsageCollapse => 0,
        TierBSignal::ToolsRequestedButNoToolCall => 1,
        TierBSignal::SelfReportedNoTools => 2,
    }
}

/// The words that claim that there are no tools.
pub open spec fn claims() -> Seq<Seq<char>> {
    seq![
        "no tool"@,
        "not seeing any definitions"@,
        "no definitions in the prompt"@,
        "tools were not provided"@,
        "no tools were provided"@,
        "cannot call tools"@,
        "没有工具"@,
        "未提供工具"@,
        "无法调用工具"@,
    ]
}

/// Whether a text, its letters A to Z lowered, is one of the claims with anything
/// before and behind it.
pub open spec fn claims_to_have_none(text: Seq<char>) -> bool {
    exists|i: int, before: Seq<char>, behind: Seq<char>|
        0 <= i < claims().len() && lowered(text) == #[trigger] (before + claims()[i] + behind)
}

proof fn claims_are_found(text: Seq<char>)
    ensures
        claims_no_tools(text) <==> claims_to_have_none(text),
{
    assert(no_tools_phrases() =~= claims());
    if claims_no_tools(text) {
        let i = choose|i: int|
            0 <= i < no_tools_phrases().len() && occurs_in(
                #[trigger] no_tools_phrases()[i],
                lowered(text),
            );
        occurrences_split_the_text(claims()[i], lowered(text));
        let (before, behind) = choose|before: Seq<char>, behind: Seq<char>|
            lowered(text) == #[trigger] (before + claims()[i] + behind);
        assert(0 <= i < claims().len() && lowered(text) == before + claims()[i] + behind);
    }
    if claims_to_have_none(text) {
        let (i, before, behind) = choose|i: int, before: Seq<char>, behind: Seq<char>|
            0 <= i < claims().len() && lowered(text) == #[trigger] (before + claims()[i] + behind);
        occurrences_split_the_text(claims()[i], lowered(text));
        assert(occurs_in(no_tools_phrases()[i], lowered(text)));
    }
}

/// Tier B reports a usage collapse if and only if both token counts are known, the
/// previous one is at least 10000, and twice the current one is less than it; unused
/// tools if and only if the request had tools and the stream had no tool call of
/// either kind; and missing tools if and only if one of the texts claims so. Each
/// signal comes at most once, in this order.
pub proof fn tier_b_signals_are_exact(input: TierBInput<'_>)
    ensures
        input.signals().no_duplicates(),
        input.signals().contains(TierBSignal::UsageCollapse) <==> input.usage_collapsed(),
        input.signals().contains(TierBSignal::ToolsRequestedButNoToolCall)
            <==> input.tools_unused(),
        input.signals().contains(TierBSignal::SelfReportedNoTools) <==> input.self_reported(),
        input.signals().contains(TierBSignal::UsageCollapse) <==> (
        input.previous_input_tokens matches Some(previous) && (input.input_tokens matches Some(
            current,
        ) && previous >= 10000 && current + current < previous)),
        input.signals().contains(TierBSignal::ToolsRequestedButNoToolCall)
            <==> input.request_had_tools && input.function_call_items
            + input.custom_tool_call_items == 0,
        input.signals().contains(TierBSignal::SelfReportedNoTools) <==> exists|i: int|
            0 <= i < input.assistant_texts@.len() && claims_to_have_none(
                (#[trigger] input.assistant_texts@[i])@,
            ),
        forall|i: int, j: int|
            0 <= i < j < input.signals().len() ==> place_of(#[trigger] input.signals()[i])
                < place_of(#[trigger] input.signals()[j]),
{
    let signals = input.signals();
    let first: int = if input.usage_collapsed() {
        1
    } else {
        0
    };
    let second: int = if input.tools_unused() {
        first + 1
    } else {
        first
    };
    if input.usage_collapsed() {
        assert(signals[0] == TierBSignal::UsageCollapse);
    }
    if input.tools_unused() {
        assert(signals[first] == TierBSignal::ToolsRequestedButNoToolCall);
    }
    if input.self_reported() {
        assert(signals[second] == TierBSignal::SelfReportedNoTools);
        let i = choose|i: int|
            0 <= i < input.assistant_texts@.len() && claims_no_tools(
                (#[trigger] input.assistant_texts@[i])@,
            );
        claims_are_found(input.assistant_texts@[i]@);
    }
    if exists|i: int|
        0 <= i < input.assistant_texts@.len() && claims_to_have_none(
            (#[trigger] input.assistant_texts@[i])@,
        ) {
        let i = choose|i: int|
            0 <= i < input.assistant_texts@.len() && claims_to_have_none(
                (#[trigger] input.assistant_texts@[i])@,
            );
        claims_are_found(input.assistant_texts@[i]@);
        assert(input.self_reported());
    }
}

} // verus!
