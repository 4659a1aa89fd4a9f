//! Semantic health detection for OpenAI Responses SSE streams.
//!
//! Upstream aggregators can silently route a Responses request to a *degraded*
//! channel that does not understand the Responses tool protocol. The model never
//! sees the tools, prints fake tool calls as plain text, and nothing executes,
//! while the HTTP status stays `200` and the SSE envelope stays valid.
//!
//! The only reliable early signal is an **identifier fingerprint**:
//!
//! | position                          | healthy                         | degraded          |
//! |-----------------------------------|---------------------------------|-------------------|
//! | `response.created`, `response.id` | `resp_` + 50 lowercase hex      | `resp_` + 32 hex  |
//! | `response.output_item.added` item | `rs_`, `msg_`, ... + session id | `..._` + 32 hex   |
//!
//! There are two deliberately different tiers:
//!
//! * **Tier A**: available in the first few SSE events, *before any client byte
//!   is written*. Only Tier A may drive replay. It is a pure state machine,
//!   [`ResponseProbe`].
//! * **Tier B**: only knowable once the stream has finished. Tier B is **never**
//!   allowed to trigger a replay; it exists for circuit weighting and
//!   after-the-fact auditing only.
//!
//! Classification is whitelist-based on purpose: an id that is not an exact
//! 50-hex or 32-hex shape is `Unknown`, which means **pass through, never replay**.

use vstd::prelude::*;

use crate::json::{Json, JsonView};
use crate::text::{
    after_prefix, chars_of, contains, lower, lowered, occurs_in, same_str, str_of,
    strip_prefix, text_of,
};

verus! {

/// Hard cap on the Tier A buffering window, in nanoseconds. The window exists to
/// collect a second independent sample without adding measurable latency to
/// healthy requests. It is deliberately not configurable beyond this.
pub const MAX_TIER_A_WINDOW: u128 = 200_000_000;

/// Hard cap on the number of buffered Tier A events.
pub const MAX_TIER_A_EVENTS: usize = 5;

#[derive(Debug, Clone, Copy, PartialEq, Eq, Hash, Structural)]
pub enum SemanticTier {
    A,
    B,
}

/// Verdict for a single identifier sample.
#[derive(Debug, Clone, Copy, PartialEq, Eq, Structural)]
pub enum IdVerdict {
    /// Matches the known-healthy whitelist.
    KnownGood,
    /// Matches the known-degraded 32-hex whitelist.
    Suspect,
    /// Anything else. Never triggers anything.
    Unknown,
}

/// Structured evidence for logs and the audit table.
#[derive(Debug, Clone, Copy, PartialEq, Eq, Hash, Structural)]
pub enum SemanticEvidence {
    ResponseIdKnownGood,
    ResponseId32Hex,
    ItemId32Hex,
    SessionScopedItemId,
    UnknownResponseId,
    UnknownItemId,
}

impl SemanticEvidence {
    /// The name of the evidence in logs and in the audit table.
    pub open spec fn name(self) -> Seq<char> {
        match self {
            SemanticEvidence::ResponseIdKnownGood => "response_id_known_good"@,
            SemanticEvidence::ResponseId32Hex => "response_id_32hex"@,
            SemanticEvidence::ItemId32Hex => "item_id_32hex"@,
            SemanticEvidence::SessionScopedItemId => "item_id_session_scoped"@,
            SemanticEvidence::UnknownResponseId => "response_id_unknown"@,
            SemanticEvidence::UnknownItemId => "item_id_unknown"@,
        }
    }

    /// Whether the sample is itself positive evidence of degradation.
    pub open spec fn suspect(self) -> bool {
        self == SemanticEvidence::ResponseId32Hex || self == SemanticEvidence::ItemId32Hex
    }

    pub fn as_str(self) -> (r: &'static str)
        ensures
            r@ == self.name(),
    {
        match self {
            SemanticEvidence::ResponseIdKnownGood => "response_id_known_good",
            SemanticEvidence::ResponseId32Hex => "response_id_32hex",
            SemanticEvidence::ItemId32Hex => "item_id_32hex",
            SemanticEvidence::SessionScopedItemId => "item_id_session_scoped",
            SemanticEvidence::UnknownResponseId => "response_id_unknown",
            SemanticEvidence::UnknownItemId => "item_id_unknown",
        }
    }

    /// `true` when the sample is itself positive evidence of degradation.
    pub fn is_suspect(self) -> (r: bool)
        ensures
            r == self.suspect(),
    {
        match self {
            SemanticEvidence::ResponseId32Hex | SemanticEvidence::ItemId32Hex => true,
            _ => false,
        }
    }
}

#[derive(Debug, Clone, Copy, PartialEq, Eq, Structural)]
pub struct SemanticObservation {
    pub tier: SemanticTier,
    pub verdict: IdVerdict,
    pub evidence: SemanticEvidence,
}

/// Tier B signals are audit-only and never trigger replay.
#[derive(Debug, Clone, Copy, PartialEq, Eq, Hash, Structural)]
pub enum TierBSignal {
    /// `input_tokens` fell sharply versus the previous request of the session,
    /// consistent with tool results never entering the prompt.
    UsageCollapse,
    /// The request declared `tools` but the stream produced no tool-call item.
    ToolsRequestedButNoToolCall,
    /// The assistant explicitly claims it has no tools or cannot see definitions.
    SelfReportedNoTools,
}

impl TierBSignal {
    /// The name of the signal in the audit table.
    pub open spec fn name(self) -> Seq<char> {
        match self {
            TierBSignal::UsageCollapse => "usage_collapse"@,
            TierBSignal::ToolsRequestedButNoToolCall => "tools_requested_but_no_tool_call"@,
            TierBSignal::SelfReportedNoTools => "self_reported_no_tools"@,
        }
    }

    pub fn as_str(self) -> (r: &'static str)
        ensures
            r@ == self.name(),
    {
        match self {
            TierBSignal::UsageCollapse => "usage_collapse",
            TierBSignal::ToolsRequestedButNoToolCall => "tools_requested_but_no_tool_call",
            TierBSignal::SelfReportedNoTools => "self_reported_no_tools",
        }
    }
}

/// Everything the Tier B analyzer needs. All fields come from data that is only
/// complete once the stream has ended.
#[derive(Debug, Clone)]
pub struct TierBInput<'a> {
    pub request_had_tools: bool,
    pub previous_input_tokens: Option<u64>,
    pub input_tokens: Option<u64>,
    pub function_call_items: u64,
    pub custom_tool_call_items: u64,
    pub assistant_texts: &'a [String],
}

/// What an assistant says that claims to have no tools.
pub open spec fn no_tools_phrases() -> Seq<Seq<char>> {
    seq![
        "no tool"@,
        "not seeing any definitions"@,
        "no definitions in the prompt"@,
        "tools were not provided"@,
        "no tools were provided"@,
        "cannot call tools"@,
        "没有工具"@,
        "未提供工具"@,
        "无法调用工具"@,
    ]
}

/// Whether a text claims, in any case of its ASCII letters, that there are no
/// tools.
pub open spec fn claims_no_tools(text: Seq<char>) -> bool {
    exists|i: int|
        0 <= i < no_tools_phrases().len() && occurs_in(
            #[trigger] no_tools_phrases()[i],
            lowered(text),
        )
}

impl<'a> TierBInput<'a> {
    /// The prompt fell below half of a previous one of at least 10000 tokens. A
    /// healthy tool loop grows the prompt; the floor keeps ordinary compaction
    /// and short turns out of the way.
    pub open spec fn usage_collapsed(self) -> bool {
        self.previous_input_tokens matches Some(previous) && (self.input_tokens matches Some(current)
            && previous >= 10_000 && 2 * current < previous)
    }

    /// Tools were declared and none was called.
    pub open spec fn tools_unused(self) -> bool {
        self.request_had_tools && self.function_call_items == 0 && self.custom_tool_call_items == 0
    }

    /// Some text of the assistant claims that there are no tools.
    pub open spec fn self_reported(self) -> bool {
        exists|i: int|
            0 <= i < self.assistant_texts@.len() && claims_no_tools(
                (#[trigger] self.assistant_texts@[i])@,
            )
    }

    /// The signals that these data give, in the order of their declaration.
    pub open spec fn signals(self) -> Seq<TierBSignal> {
        (if self.usage_collapsed() {
            seq![TierBSignal::UsageCollapse]
        } else {
            seq![]
        }) + (if self.tools_unused() {
            seq![TierBSignal::ToolsRequestedButNoToolCall]
        } else {
            seq![]
        }) + (if self.self_reported() {
            seq![TierBSignal::SelfReportedNoTools]
        } else {
            seq![]
        })
    }
}

fn text_claims_no_tools(text: &str) -> (r: bool)
    ensures
        r == claims_no_tools(text@),
{
    let phrases: [&str; 9] = [
        "no tool",
        "not seeing any definitions",
        "no definitions in the prompt",
        "tools were not provided",
        "no tools were provided",
        "cannot call tools",
        "没有工具",
        "未提供工具",
        "无法调用工具",
    ];
    let low: Vec<char> = lower(chars_of(text).as_slice());
    assert(phrases@.len() == no_tools_phrases().len());
    assert forall|j: int| 0 <= j < 9 implies phrases@[j]@ == #[trigger] no_tools_phrases()[j] by {}
    for i in 0..9usize
        invariant
            phrases@.len() == 9,
            no_tools_phrases().len() == 9,
            low@ == lowered(text@),
            forall|j: int| 0 <= j < 9 ==> phrases@[j]@ == #[trigger] no_tools_phrases()[j],
            forall|j: int|
                0 <= j < i ==> !occurs_in(#[trigger] no_tools_phrases()[j], lowered(text@)),
    {
        assert(phrases@[i as int]@ == no_tools_phrases()[i as int]);
        if contains(low.as_slice(), phrases[i]) {
            return true;
        }
    }
    false
}

/// Analyze the post-stream Tier B signals. Pure and deterministic.
pub fn analyze_tier_b(input: &TierBInput<'_>) -> (r: Vec<TierBSignal>)
    ensures
        r@ == input.signals(),
{
    let mut signals: Vec<TierBSignal> = Vec::new();
    if let (Some(previous), Some(current)) = (input.previous_input_tokens, input.input_tokens) {
        // A healthy tool loop grows the prompt. Requiring both an absolute floor
        // and a >50% drop keeps ordinary compaction and short turns out of the way.
        if previous >= 10_000 && current < previous && current < previous - current {
            signals.push(TierBSignal::UsageCollapse);
        }
    }
    if input.request_had_tools && input.function_call_items == 0 && input.custom_tool_call_items
        == 0 {
        signals.push(TierBSignal::ToolsRequestedButNoToolCall);
    }
    let ghost so_far = signals@;
    let mut self_reported: bool = false;
    let n: usize = input.assistant_texts.len();
    for i in 0..n
        invariant
            n == input.assistant_texts@.len(),
            self_reported == exists|j: int|
                0 <= j < i && claims_no_tools((#[trigger] input.assistant_texts@[j])@),
    {
        let claims: bool = text_claims_no_tools(input.assistant_texts[i].as_str());
        if claims {
            assert(claims_no_tools(input.assistant_texts@[i as int]@));
            self_reported = true;
        }
    }
    if self_reported {
        signals.push(TierBSignal::SelfReportedNoTools);
    }
    assert(signals@ =~= input.signals());
    signals
}

/// Whether a text consists of lowercase hexadecimal digits, at least one.
pub open spec fn lowercase_hex(s: Seq<char>) -> bool {
    s.len() > 0 && forall|i: int|
        0 <= i < s.len() ==> '0' <= #[trigger] s[i] <= '9' || 'a' <= s[i] <= 'f'
}

fn chars_are_lowercase_hex(s: &[char]) -> (r: bool)
    ensures
        r == lowercase_hex(s@),
{
    let n: usize = s.len();
    for i in 0..n
        invariant
            n == s@.len(),
            forall|j: int| 0 <= j < i ==> '0' <= #[trigger] s@[j] <= '9' || 'a' <= s@[j] <= 'f',
    {
        let c: char = s[i];
        if !(('0' <= c && c <= '9') || ('a' <= c && c <= 'f')) {
            return false;
        }
    }
    n > 0
}

/// Whether a text consists of lowercase hexadecimal digits, at least one.
pub fn is_lowercase_hex(value: &str) -> (r: bool)
    ensures
        r == lowercase_hex(value@),
{
    chars_are_lowercase_hex(chars_of(value).as_slice())
}

/// A Tier A observation.
pub open spec fn tier_a(verdict: IdVerdict, evidence: SemanticEvidence) -> SemanticObservation {
    SemanticObservation { tier: SemanticTier::A, verdict, evidence }
}

/// Whether an id is `prefix` and exactly `n` lowercase hexadecimal digits.
pub open spec fn hex_id(id: Seq<char>, prefix: Seq<char>, n: nat) -> bool {
    after_prefix(id, prefix) matches Some(hex) && hex.len() == n && lowercase_hex(hex)
}

/// What the id of a response tells.
pub open spec fn response_observation(id: Option<Seq<char>>) -> SemanticObservation {
    if id is Some && hex_id(id->0, "resp_"@, 50) {
        tier_a(IdVerdict::KnownGood, SemanticEvidence::ResponseIdKnownGood)
    } else if id is Some && hex_id(id->0, "resp_"@, 32) {
        tier_a(IdVerdict::Suspect, SemanticEvidence::ResponseId32Hex)
    } else {
        tier_a(IdVerdict::Unknown, SemanticEvidence::UnknownResponseId)
    }
}

/// `resp_` + exactly 50 lowercase hex is known-good; `resp_` + exactly 32
/// lowercase hex is known-degraded. Everything else is `Unknown`.
pub fn classify_response_id(id: Option<&str>) -> (r: SemanticObservation)
    ensures
        r == response_observation(str_of(id)),
{
    let unknown = SemanticObservation {
        tier: SemanticTier::A,
        verdict: IdVerdict::Unknown,
        evidence: SemanticEvidence::UnknownResponseId,
    };
    let chars: Vec<char> = match id {
        Some(value) => chars_of(value),
        None => return unknown,
    };
    match strip_prefix(chars.as_slice(), "resp_") {
        Some(hex) => {
            if hex.len() == 50 && chars_are_lowercase_hex(hex) {
                SemanticObservation {
                    tier: SemanticTier::A,
                    verdict: IdVerdict::KnownGood,
                    evidence: SemanticEvidence::ResponseIdKnownGood,
                }
            } else if hex.len() == 32 && chars_are_lowercase_hex(hex) {
                SemanticObservation {
                    tier: SemanticTier::A,
                    verdict: IdVerdict::Suspect,
                    evidence: SemanticEvidence::ResponseId32Hex,
                }
            } else {
                unknown
            }
        },
        None => unknown,
    }
}

/// Whether an id has the prefix of an output item.
pub open spec fn item_prefixed(id: Seq<char>) -> bool {
    ||| "rs_"@.is_prefix_of(id)
    ||| "msg_"@.is_prefix_of(id)
    ||| "fc_"@.is_prefix_of(id)
    ||| "ctc_"@.is_prefix_of(id)
}

/// Whether an id is the prefix of an output item and exactly 32 lowercase
/// hexadecimal digits.
pub open spec fn item_32_hex(id: Seq<char>) -> bool {
    ||| hex_id(id, "rs_"@, 32)
    ||| hex_id(id, "msg_"@, 32)
    ||| hex_id(id, "fc_"@, 32)
    ||| hex_id(id, "ctc_"@, 32)
}

/// What the id of an output item tells.
pub open spec fn item_observation(id: Option<Seq<char>>) -> SemanticObservation {
    if id is Some && item_32_hex(id->0) {
        tier_a(IdVerdict::Suspect, SemanticEvidence::ItemId32Hex)
    } else if id is Some && item_prefixed(id->0) {
        tier_a(IdVerdict::Unknown, SemanticEvidence::SessionScopedItemId)
    } else {
        tier_a(IdVerdict::Unknown, SemanticEvidence::UnknownItemId)
    }
}

/// No id has two of the prefixes of output items.
proof fn item_prefixes_exclude(id: Seq<char>)
    ensures
        "rs_"@.is_prefix_of(id) ==> !"msg_"@.is_prefix_of(id) && !"fc_"@.is_prefix_of(id)
            && !"ctc_"@.is_prefix_of(id),
        "msg_"@.is_prefix_of(id) ==> !"fc_"@.is_prefix_of(id) && !"ctc_"@.is_prefix_of(id),
        "fc_"@.is_prefix_of(id) ==> !"ctc_"@.is_prefix_of(id),
{
    reveal_strlit("rs_");
    reveal_strlit("msg_");
    reveal_strlit("fc_");
    reveal_strlit("ctc_");
    if "rs_"@.is_prefix_of(id) {
        assert(id[0] == "rs_"@[0]);
    }
    if "msg_"@.is_prefix_of(id) {
        assert(id[0] == "msg_"@[0]);
    }
    if "fc_"@.is_prefix_of(id) {
        assert(id[0] == "fc_"@[0]);
    }
    if "ctc_"@.is_prefix_of(id) {
        assert(id[0] == "ctc_"@[0]);
    }
}

/// `(rs|msg|fc|ctc)_` + exactly 32 lowercase hex is known-degraded. The healthy
/// long session-scoped form and unknown prefixes stay `Unknown`.
pub fn classify_item_id(id: Option<&str>) -> (r: SemanticObservation)
    ensures
        r == item_observation(str_of(id)),
{
    let unknown = SemanticObservation {
        tier: SemanticTier::A,
        verdict: IdVerdict::Unknown,
        evidence: SemanticEvidence::UnknownItemId,
    };
    let chars: Vec<char> = match id {
        Some(value) => chars_of(value),
        None => return unknown,
    };
    proof {
        item_prefixes_exclude(chars@);
    }
    let all: &[char] = chars.as_slice();
    let suffix: Option<&[char]> = if let Some(hex) = strip_prefix(all, "rs_") {
        Some(hex)
    } else if let Some(hex) = strip_prefix(all, "msg_") {
        Some(hex)
    } else if let Some(hex) = strip_prefix(all, "fc_") {
        Some(hex)
    } else {
        strip_prefix(all, "ctc_")
    };
    match suffix {
        Some(hex) => {
            if hex.len() == 32 && chars_are_lowercase_hex(hex) {
                SemanticObservation {
                    tier: SemanticTier::A,
                    verdict: IdVerdict::Suspect,
                    evidence: SemanticEvidence::ItemId32Hex,
                }
            } else {
                SemanticObservation {
                    tier: SemanticTier::A,
                    verdict: IdVerdict::Unknown,
                    evidence: SemanticEvidence::SessionScopedItemId,
                }
            }
        },
        None => unknown,
    }
}

/// The id that a `response.created` event carries.
pub open spec fn response_id(payload: JsonView) -> Option<Seq<char>> {
    match payload.field("response"@) {
        Some(response) => match response.text_field("id"@) {
            Some(id) => Some(id),
            None => payload.text_field("id"@),
        },
        None => payload.text_field("id"@),
    }
}

/// The id that a `response.output_item.added` event carries.
pub open spec fn item_id(payload: JsonView) -> Option<Seq<char>> {
    match payload.field("item"@) {
        Some(item) => match item.text_field("id"@) {
            Some(id) => Some(id),
            None => payload.text_field("item_id"@),
        },
        None => payload.text_field("item_id"@),
    }
}

fn response_id_of<'a>(payload: &'a Json) -> (r: Option<&'a str>)
    ensures
        str_of(r) == response_id(payload@),
{
    if let Some(response) = payload.get("response") {
        if let Some(id) = response.get_str("id") {
            return Some(id);
        }
    }
    payload.get_str("id")
}

fn item_id_of<'a>(payload: &'a Json) -> (r: Option<&'a str>)
    ensures
        str_of(r) == item_id(payload@),
{
    if let Some(item) = payload.get("item") {
        if let Some(id) = item.get_str("id") {
            return Some(id);
        }
    }
    payload.get_str("item_id")
}

/// What one event tells. Only two kinds of event carry an id that is looked at.
pub open spec fn observation(event: Seq<char>, payload: JsonView) -> SemanticObservation {
    if event == "response.created"@ {
        response_observation(response_id(payload))
    } else if event == "response.output_item.added"@ {
        item_observation(item_id(payload))
    } else {
        tier_a(IdVerdict::Unknown, SemanticEvidence::UnknownItemId)
    }
}

/// Classify one SSE event's identifier shape.
pub fn observe(event_type: &str, payload: &Json) -> (r: SemanticObservation)
    ensures
        r == observation(event_type@, payload@),
{
    if same_str(event_type, "response.created") {
        classify_response_id(response_id_of(payload))
    } else if same_str(event_type, "response.output_item.added") {
        classify_item_id(item_id_of(payload))
    } else {
        SemanticObservation {
            tier: SemanticTier::A,
            verdict: IdVerdict::Unknown,
            evidence: SemanticEvidence::UnknownItemId,
        }
    }
}

/// Decision after feeding one event into [`ResponseProbe`].
#[derive(Debug, Clone, Copy, PartialEq, Eq, Structural)]
pub enum ProbeDecision {
    /// Keep buffering; the window is still open.
    Continue,
    /// Commit and pass the buffered bytes through unchanged.
    Pass,
    /// Tier A degradation confirmed; replay is safe (no client byte written yet).
    Degraded,
}

/// Pure Tier A state machine. Feed parsed SSE events in order.
///
/// Replay is only confirmed when the **first** event carries a suspect
/// `response.created` id *and* at least one further independent suspect sample
/// arrives before the window closes at the first `response.output_item.added`,
/// [`MAX_TIER_A_EVENTS`] events, or [`MAX_TIER_A_WINDOW`].
#[derive(Debug)]
pub struct ResponseProbe {
    first_event_seen: bool,
    first_event_suspect: bool,
    samples: Vec<SemanticEvidence>,
    events_seen: usize,
    finished: bool,
    degraded: bool,
    request_id: Option<String>,
    last_sample: Option<SemanticEvidence>,
}

/// What a probe has seen and decided.
#[verifier::ext_equal]
pub struct ProbeView {
    pub first_event_seen: bool,
    pub first_event_suspect: bool,
    pub samples: Set<SemanticEvidence>,
    pub events_seen: nat,
    pub finished: bool,
    pub degraded: bool,
    pub request_id: Option<Seq<char>>,
    pub last_sample: Option<SemanticEvidence>,
}

/// One piece of evidence where it is among the samples, and nothing elsewhere.
pub open spec fn only_if(
    samples: Set<SemanticEvidence>,
    evidence: SemanticEvidence,
) -> Seq<SemanticEvidence> {
    if samples.contains(evidence) {
        seq![evidence]
    } else {
        seq![]
    }
}

/// One where the evidence is among the samples, and zero elsewhere.
pub open spec fn count_if(samples: Set<SemanticEvidence>, evidence: SemanticEvidence) -> nat {
    if samples.contains(evidence) {
        1
    } else {
        0
    }
}

/// The type of an event: its name, or else the `type` of its payload.
pub open spec fn effective_event(event_type: Seq<char>, payload: JsonView) -> Seq<char> {
    if event_type.len() > 0 {
        event_type
    } else {
        match payload.text_field("type"@) {
            Some(kind) => kind,
            None => seq![],
        }
    }
}

impl ProbeView {
    /// The state before any event.
    pub open spec fn fresh() -> ProbeView {
        ProbeView {
            first_event_seen: false,
            first_event_suspect: false,
            samples: Set::empty(),
            events_seen: 0,
            finished: false,
            degraded: false,
            request_id: None,
            last_sample: None,
        }
    }

    /// What holds of every state that a probe can be in.
    pub open spec fn valid(self) -> bool {
        &&& self.degraded ==> self.finished
        &&& !self.finished ==> self.events_seen < MAX_TIER_A_EVENTS
        &&& !self.first_event_seen ==> self.events_seen == 0
        &&& self.first_event_seen && !self.finished ==> self.first_event_suspect
        &&& self.first_event_suspect ==> self.first_event_seen
        &&& self.first_event_suspect <==> self.samples.contains(SemanticEvidence::ResponseId32Hex)
        &&& forall|e: SemanticEvidence| #[trigger] self.samples.contains(e) ==> e.suspect()
        &&& self.degraded <==> self.suspect_count() == 2
        &&& self.samples.contains(SemanticEvidence::ItemId32Hex) ==> self.first_event_suspect
    }

    /// What has been decided.
    pub open spec fn decision(self) -> ProbeDecision {
        if self.degraded {
            ProbeDecision::Degraded
        } else if self.finished {
            ProbeDecision::Pass
        } else {
            ProbeDecision::Continue
        }
    }

    /// How many different suspect samples there are.
    pub open spec fn suspect_count(self) -> nat {
        count_if(self.samples, SemanticEvidence::ResponseId32Hex) + count_if(
            self.samples,
            SemanticEvidence::ItemId32Hex,
        )
    }

    /// The samples in the order in which they are logged.
    pub open spec fn evidence(self) -> Seq<SemanticEvidence> {
        only_if(self.samples, SemanticEvidence::ResponseId32Hex) + only_if(
            self.samples,
            SemanticEvidence::ItemId32Hex,
        ) + only_if(self.samples, SemanticEvidence::SessionScopedItemId) + only_if(
            self.samples,
            SemanticEvidence::UnknownResponseId,
        ) + only_if(self.samples, SemanticEvidence::UnknownItemId)
    }

    /// The state once the window is closed.
    pub open spec fn closed(self) -> ProbeView {
        ProbeView { finished: true, ..self }
    }

    /// The state once an event of this type has come.
    pub open spec fn seen(self, event: Seq<char>, payload: JsonView) -> ProbeView {
        let observed = observation(event, payload);
        let suspect = observed.verdict == IdVerdict::Suspect;
        let counted = ProbeView {
            events_seen: self.events_seen + 1,
            last_sample: Some(observed.evidence),
            request_id: if event == "response.created"@ && self.request_id is None {
                response_id(payload)
            } else {
                self.request_id
            },
            ..self
        };
        if !self.first_event_seen {
            // The first event has to be a suspect `response.created`. After any
            // other one nothing is replayed, and nothing more is looked at.
            let suspect_start = event == "response.created"@ && suspect;
            ProbeView {
                first_event_seen: true,
                first_event_suspect: suspect_start,
                samples: if suspect_start {
                    self.samples.insert(observed.evidence)
                } else {
                    self.samples
                },
                finished: !suspect_start,
                ..counted
            }
        } else if !self.first_event_suspect {
            ProbeView { finished: true, ..counted }
        } else {
            let sampled = ProbeView {
                samples: if suspect {
                    self.samples.insert(observed.evidence)
                } else {
                    self.samples
                },
                ..counted
            };
            let degraded = suspect && sampled.suspect_count() >= 2;
            ProbeView {
                degraded,
                finished: degraded || event == "response.output_item.added"@ || sampled.events_seen
                    >= MAX_TIER_A_EVENTS,
                ..sampled
            }
        }
    }

    /// The state once an event has come. A probe that has decided stays as it is.
    pub open spec fn step(self, event_type: Seq<char>, payload: JsonView) -> ProbeView {
        if self.finished {
            self
        } else {
            self.seen(effective_event(event_type, payload), payload)
        }
    }
}

impl View for ResponseProbe {
    type V = ProbeView;

    closed spec fn view(&self) -> ProbeView {
        ProbeView {
            first_event_seen: self.first_event_seen,
            first_event_suspect: self.first_event_suspect,
            samples: self.samples@.to_set(),
            events_seen: self.events_seen as nat,
            finished: self.finished,
            degraded: self.degraded,
            request_id: match self.request_id {
                Some(id) => Some(id@),
                None => None,
            },
            last_sample: self.last_sample,
        }
    }
}

impl Default for ResponseProbe {
    fn default() -> (r: Self)
        ensures
            r@ == ProbeView::fresh(),
            r@.valid(),
    {
        ResponseProbe::new()
    }
}

/// Whether a sample is among others.
fn has_sample(samples: &Vec<SemanticEvidence>, evidence: SemanticEvidence) -> (r: bool)
    ensures
        r == samples@.to_set().contains(evidence),
{
    let n: usize = samples.len();
    for i in 0..n
        invariant
            n == samples@.len(),
            forall|j: int| 0 <= j < i ==> samples@[j] != evidence,
    {
        if samples[i] == evidence {
            assert(samples@.contains(evidence));
            return true;
        }
    }
    false
}

/// Adds a sample where it is not among the others yet.
fn add_sample(samples: &mut Vec<SemanticEvidence>, evidence: SemanticEvidence)
    ensures
        final(samples)@.to_set() == old(samples)@.to_set().insert(evidence),
        old(samples)@.no_duplicates() ==> final(samples)@.no_duplicates(),
{
    if !has_sample(samples, evidence) {
        let ghost before = samples@;
        samples.push(evidence);
        proof {
            before.lemma_push_to_set_commute(evidence);
        }
    }
    assert(samples@.to_set() =~= old(samples)@.to_set().insert(evidence));
}

/// How many different suspect samples there are.
fn suspect_samples(samples: &Vec<SemanticEvidence>) -> (r: usize)
    ensures
        r == count_if(samples@.to_set(), SemanticEvidence::ResponseId32Hex) + count_if(
            samples@.to_set(),
            SemanticEvidence::ItemId32Hex,
        ),
{
    let mut n: usize = 0;
    if has_sample(samples, SemanticEvidence::ResponseId32Hex) {
        n = n + 1;
    }
    if has_sample(samples, SemanticEvidence::ItemId32Hex) {
        n = n + 1;
    }
    n
}

impl ResponseProbe {
    pub fn new() -> (r: Self)
        ensures
            r@ == ProbeView::fresh(),
            r@.valid(),
    {
        let r = ResponseProbe {
            first_event_seen: false,
            first_event_suspect: false,
            samples: Vec::new(),
            events_seen: 0,
            finished: false,
            degraded: false,
            request_id: None,
            last_sample: None,
        };
        assert(r@ =~= ProbeView::fresh());
        r
    }

    pub fn request_id(&self) -> (r: Option<&str>)
        ensures
            str_of(r) == self@.request_id,
    {
        match &self.request_id {
            Some(id) => Some(id.as_str()),
            None => None,
        }
    }

    /// What the last event that was looked at told.
    pub fn last_sample(&self) -> (r: Option<SemanticEvidence>)
        ensures
            r == self@.last_sample,
    {
        self.last_sample
    }

    pub fn decision(&self) -> (r: ProbeDecision)
        ensures
            r == self@.decision(),
    {
        if self.degraded {
            ProbeDecision::Degraded
        } else if self.finished {
            ProbeDecision::Pass
        } else {
            ProbeDecision::Continue
        }
    }

    /// Ordered, de-duplicated evidence for logging and the audit row.
    pub fn evidence(&self) -> (r: Vec<SemanticEvidence>)
        ensures
            r@ == self@.evidence(),
    {
        let mut ordered: Vec<SemanticEvidence> = Vec::new();
        if has_sample(&self.samples, SemanticEvidence::ResponseId32Hex) {
            ordered.push(SemanticEvidence::ResponseId32Hex);
        }
        if has_sample(&self.samples, SemanticEvidence::ItemId32Hex) {
            ordered.push(SemanticEvidence::ItemId32Hex);
        }
        if has_sample(&self.samples, SemanticEvidence::SessionScopedItemId) {
            ordered.push(SemanticEvidence::SessionScopedItemId);
        }
        if has_sample(&self.samples, SemanticEvidence::UnknownResponseId) {
            ordered.push(SemanticEvidence::UnknownResponseId);
        }
        if has_sample(&self.samples, SemanticEvidence::UnknownItemId) {
            ordered.push(SemanticEvidence::UnknownItemId);
        }
        assert(ordered@ =~= self@.evidence());
        ordered
    }

    pub fn suspect_sample_count(&self) -> (r: usize)
        ensures
            r == self@.suspect_count(),
    {
        suspect_samples(&self.samples)
    }

    /// No sample is kept twice, and what the probe has seen and decided fits
    /// together.
    #[verifier::type_invariant]
    spec fn consistent(self) -> bool {
        &&& self.samples@.no_duplicates()
        &&& self@.valid()
    }

    /// Close the window because the time budget elapsed. Never degrades on its
    /// own: a timeout without two independent samples is a pass-through.
    pub fn close_window(&mut self) -> (r: ProbeDecision)
        ensures
            final(self)@ == old(self)@.closed(),
            final(self)@.valid(),
            r == final(self)@.decision(),
            r != ProbeDecision::Continue,
            r == ProbeDecision::Degraded <==> old(self)@.decision() == ProbeDecision::Degraded,
    {
        proof {
            use_type_invariant(&*self);
        }
        if self.degraded {
            assert(self@ =~= old(self)@.closed());
            return ProbeDecision::Degraded;
        }
        self.finished = true;
        assert(self@ =~= old(self)@.closed());
        ProbeDecision::Pass
    }

    /// The probe once an event of this type has come.
    fn after(self, event: &str, payload: &Json) -> (r: ResponseProbe)
        requires
            !self@.finished,
        ensures
            r@ == self@.seen(event@, payload@),
            r@.valid(),
    {
        proof {
            use_type_invariant(&self);
            reveal_strlit("response.created");
            reveal_strlit("response.output_item.added");
            assert("response.created"@.len() != "response.output_item.added"@.len());
        }
        let ghost next = self@.seen(event@, payload@);
        let first: bool = !self.first_event_seen;
        let events_seen: usize = self.events_seen + 1;
        let mut samples: Vec<SemanticEvidence> = self.samples;
        let observed: SemanticObservation = observe(event, payload);
        let created: bool = same_str(event, "response.created");
        let suspect: bool = observed.verdict == IdVerdict::Suspect;
        let request_id: Option<String> = if created && self.request_id.is_none() {
            match response_id_of(payload) {
                Some(id) => Some(id.to_owned()),
                None => None,
            }
        } else {
            self.request_id
        };
        let first_event_suspect: bool = if first {
            created && suspect
        } else {
            self.first_event_suspect
        };
        if first_event_suspect && suspect {
            add_sample(&mut samples, observed.evidence);
        }
        let degraded: bool = !first && suspect && suspect_samples(&samples) >= 2;
        // A first event that is not the expected suspect `response.created` ends
        // the probe: never replay, never look further. Later on
        // `response.output_item.added` closes the collection window whether or not
        // it was a second suspect sample.
        let finished: bool = !first_event_suspect || degraded || (!first && (same_str(
            event,
            "response.output_item.added",
        ) || events_seen >= MAX_TIER_A_EVENTS));
        proof {
            let after = ProbeView {
                first_event_seen: true,
                first_event_suspect,
                samples: samples@.to_set(),
                events_seen: events_seen as nat,
                finished,
                degraded,
                request_id: text_of(request_id),
                last_sample: Some(observed.evidence),
            };
            assert(after =~= next);
        }
        ResponseProbe {
            first_event_seen: true,
            first_event_suspect,
            samples,
            events_seen,
            finished,
            degraded,
            request_id,
            last_sample: Some(observed.evidence),
        }
    }

    /// Feed one parsed SSE event. `event_type` may be empty; the payload's own
    /// `type` field is used as a fallback.
    pub fn observe_event(&mut self, event_type: &str, payload: &Json) -> (r: ProbeDecision)
        ensures
            final(self)@ == old(self)@.step(event_type@, payload@),
            final(self)@.valid(),
            r == final(self)@.decision(),
    {
        proof {
            use_type_invariant(&*self);
        }
        if self.finished {
            return self.decision();
        }
        let event: &str = if event_type.is_empty() {
            match payload.get_str("type") {
                Some(kind) => kind,
                None => "",
            }
        } else {
            event_type
        };
        proof {
            reveal_strlit("");
            assert(event@ =~= effective_event(event_type@, payload@));
        }
        let mut before: ResponseProbe = ResponseProbe::new();
        std::mem::swap(self, &mut before);
        *self = before.after(event, payload);
        self.decision()
    }
}

} // verus!
