//! Independent safety rails around the semantic detector.
//!
//! HTTP status stays `200` when a Responses channel degrades, so the generic
//! circuit breaker and failover counters (which key off transport errors) never
//! see it. This module keeps a **separate** failure counter and a separate
//! cooldown so badly behaved aggregator channels stop being hammered, without
//! ever poisoning the transport-level health of the provider.
//!
//! It also owns the replay policy: how many sends are allowed and when the
//! `prompt_cache_key` may be perturbed. Time is a number of nanoseconds on a
//! monotonic clock that the caller reads.

use vstd::hash_map::StringHashMap;
use vstd::prelude::*;

use crate::json::{field_views, field_views_index, lookup, Json, JsonView};
use crate::text::{
    append, append_hex, append_str, chars_of, find_char, hex, position, same_str, string_of,
};

verus! {

/// Rolling window over which semantic failures are counted, in nanoseconds.
pub const SEMANTIC_FAILURE_WINDOW: u128 = 300_000_000_000;

/// The nanoseconds of a second.
pub const NANOS_PER_SEC: u128 = 1_000_000_000;

/// How the probe, the replay and the semantic circuit are set up.
#[derive(Debug, Clone, Copy)]
pub struct SemanticProbeConfig {
    /// Whether streams are probed at all.
    pub enabled: bool,
    /// Whether a degraded response is replayed, or only observed.
    pub replay_enabled: bool,
    /// The buffering window, in milliseconds.
    pub window_ms: u64,
    /// The number of sends for one client request, the original one included.
    pub max_attempts: u32,
    /// The number of failures within the window that opens the circuit.
    pub circuit_failure_threshold: u32,
    /// For how long the circuit stays open.
    pub circuit_timeout_seconds: u32,
}

/// What to do after a Tier A degradation was detected.
#[derive(Debug, Clone, Copy, PartialEq, Eq, Structural)]
pub enum SemanticAction {
    /// Replay the exact same request (keep `prompt_cache_key`, keep upstream cache).
    RetrySame,
    /// Replay after perturbing channel affinity (`prompt_cache_key` suffix).
    RetryPerturbed,
    /// Replay budget exhausted; surface the degradation and let failover decide.
    GiveUp,
}

/// The number of sends that are allowed: what is configured, within one and three.
pub open spec fn allowed_sends(max_attempts: u32) -> int {
    if max_attempts < 1 {
        1
    } else if max_attempts > 3 {
        3
    } else {
        max_attempts as int
    }
}

/// The next move once so many sends are done. The budget ends it; the first replay
/// is the request as it was, and only a later one is perturbed.
pub open spec fn next_action(attempts_done: int, max_attempts: u32) -> SemanticAction {
    if attempts_done >= allowed_sends(max_attempts) {
        SemanticAction::GiveUp
    } else if attempts_done <= 1 {
        SemanticAction::RetrySame
    } else {
        SemanticAction::RetryPerturbed
    }
}

/// Decide the next move. `attempts_done` counts sends already performed for this
/// client request (1 = the original send).
pub fn plan_next_attempt(attempts_done: u32, max_attempts: u32) -> (r: SemanticAction)
    ensures
        r == next_action(attempts_done as int, max_attempts),
{
    let allowed: u32 = if max_attempts < 1 {
        1
    } else if max_attempts > 3 {
        3
    } else {
        max_attempts
    };
    if attempts_done >= allowed {
        return SemanticAction::GiveUp;
    }
    if attempts_done <= 1 {
        SemanticAction::RetrySame
    } else {
        SemanticAction::RetryPerturbed
    }
}

/// A cache key with a suffix made of a salt.
pub open spec fn perturbed_key(key: Seq<char>, salt: u64) -> Seq<char> {
    key + "-sem-"@ + hex(salt as nat, 16)
}

/// The cache key of a request body that may be perturbed: a string that is not
/// empty.
pub open spec fn cache_key(body: JsonView) -> Option<Seq<char>> {
    match body.text_field("prompt_cache_key"@) {
        Some(key) => if key.len() > 0 {
            Some(key)
        } else {
            None
        },
        None => None,
    }
}

/// The fields with another value in the first field that has this key.
pub open spec fn with_field(
    fields: Seq<(Seq<char>, JsonView)>,
    key: Seq<char>,
    value: JsonView,
) -> Seq<(Seq<char>, JsonView)>
    decreases fields.len(),
{
    if fields.len() == 0 {
        seq![]
    } else if fields[0].0 == key {
        seq![(key, value)] + fields.drop_first()
    } else {
        seq![fields[0]] + with_field(fields.drop_first(), key, value)
    }
}

/// A request body with another cache key.
pub open spec fn with_cache_key(body: JsonView, key: Seq<char>) -> JsonView {
    match body {
        JsonView::Object(fields) => JsonView::Object(
            with_field(fields, "prompt_cache_key"@, JsonView::String(key)),
        ),
        _ => body,
    }
}

/// The first field with a key is the one that is read and the one that is
/// changed.
proof fn first_field(
    fields: Seq<(Seq<char>, JsonView)>,
    key: Seq<char>,
    value: JsonView,
    i: int,
)
    requires
        0 <= i < fields.len(),
        fields[i].0 == key,
        forall|j: int| 0 <= j < i ==> (#[trigger] fields[j]).0 != key,
    ensures
        lookup(fields, key) == Some(fields[i].1),
        with_field(fields, key, value) == fields.update(i, (key, value)),
    decreases i,
{
    if i > 0 {
        assert(fields[0].0 != key);
        assert forall|j: int| 0 <= j < i - 1 implies (#[trigger] fields.drop_first()[j]).0
            != key by {
            assert(fields.drop_first()[j] == fields[j + 1]);
        }
        first_field(fields.drop_first(), key, value, i - 1);
    }
    assert(with_field(fields, key, value) =~= fields.update(i, (key, value)));
}

/// Where no field has a key, nothing is read under it.
proof fn no_field(fields: Seq<(Seq<char>, JsonView)>, key: Seq<char>)
    requires
        forall|j: int| 0 <= j < fields.len() ==> (#[trigger] fields[j]).0 != key,
    ensures
        lookup(fields, key) is None,
    decreases fields.len(),
{
    if fields.len() > 0 {
        assert(fields[0].0 != key);
        assert forall|j: int| 0 <= j < fields.drop_first().len() implies (
        #[trigger] fields.drop_first()[j]).0 != key by {
            assert(fields.drop_first()[j] == fields[j + 1]);
        }
        no_field(fields.drop_first(), key);
    }
}

/// What perturbing a body comes to: the key before, the key after, and the body with
/// that key, or nothing where the body has no key to perturb.
pub open spec fn perturbation(body: JsonView, salt: u64) -> Option<
    (Seq<char>, Seq<char>, JsonView),
> {
    match cache_key(body) {
        Some(key) => Some(
            (key, perturbed_key(key, salt), with_cache_key(body, perturbed_key(key, salt))),
        ),
        None => None,
    }
}

/// Append a suffix made of `salt` to an existing `prompt_cache_key`.
///
/// Returns `(old, new)` on success, or `None` when the body has no string key to
/// perturb (we never invent one: adding a cache key changes upstream semantics).
pub fn perturb_prompt_cache_key(body: &mut Json, salt: u64) -> (r: Option<(String, String)>)
    ensures
        match cache_key(old(body)@) {
            Some(key) => r matches Some((before, after)) && before@ == key && after@
                == perturbed_key(key, salt) && final(body)@ == with_cache_key(
                old(body)@,
                perturbed_key(key, salt),
            ),
            None => r is None && final(body)@ == old(body)@,
        },
        perturbation(old(body)@, salt) == (match r {
            Some((before, after)) => Some((before@, after@, final(body)@)),
            None => None,
        }),
{
    match body {
        Json::Object(fields) => {
            let n: usize = fields.len();
            let ghost views = field_views(fields@);
            let ghost key = "prompt_cache_key"@;
            proof {
                field_views_index(fields@);
            }
            let mut i: usize = 0;
            while i < n && !same_str(fields[i].0.as_str(), "prompt_cache_key")
                invariant
                    i <= n,
                    n == fields@.len(),
                    views == field_views(fields@),
                    views.len() == n,
                    key == "prompt_cache_key"@,
                    forall|j: int|
                        0 <= j < n ==> #[trigger] views[j] == (fields@[j].0@, fields@[j].1@),
                    forall|j: int| 0 <= j < i ==> (#[trigger] views[j]).0 != key,
                decreases n - i,
            {
                assert(views[i as int].0 != key);
                i = i + 1;
            }
            if i == n {
                proof {
                    no_field(views, key);
                }
                return None;
            }
            let current: String = match &fields[i].1 {
                Json::String(s) => s.clone(),
                _ => {
                    proof {
                        first_field(views, key, JsonView::Null, i as int);
                    }
                    return None;
                },
            };
            assert(views[i as int].1 == JsonView::String(current@));
            if current.as_str().is_empty() {
                proof {
                    first_field(views, key, JsonView::Null, i as int);
                }
                return None;
            }
            let mut chars: Vec<char> = chars_of(current.as_str());
            append_str(&mut chars, "-sem-");
            append_hex(&mut chars, salt, 16);
            let perturbed: String = string_of(chars.as_slice());
            fields.set(
                i,
                ("prompt_cache_key".to_owned(), Json::String(string_of(chars.as_slice()))),
            );
            proof {
                let value = JsonView::String(perturbed_key(current@, salt));
                first_field(views, key, value, i as int);
                field_views_index(fields@);
                assert(field_views(fields@) =~= views.update(i as int, (key, value)));
            }
            Some((current, perturbed))
        },
        _ => None,
    }
}

/// The path of an endpoint: what stands before its query.
pub open spec fn endpoint_path(endpoint: Seq<char>) -> Seq<char> {
    endpoint.take(find_char(endpoint, '?'))
}

/// The key of the semantic circuit of a target.
pub open spec fn target_key(
    app_type: Seq<char>,
    provider_id: Seq<char>,
    endpoint: Option<Seq<char>>,
) -> Seq<char> {
    match endpoint {
        Some(endpoint) => if endpoint.len() > 0 {
            app_type + ":"@ + provider_id + ":"@ + endpoint_path(endpoint)
        } else {
            app_type + ":"@ + provider_id
        },
        None => app_type + ":"@ + provider_id,
    }
}

/// Build the semantic circuit key. Precise to endpoint when one is known.
pub fn circuit_key(app_type: &str, provider_id: &str, endpoint: Option<&str>) -> (r: String)
    ensures
        r@ == target_key(
            app_type@,
            provider_id@,
            match endpoint {
                Some(endpoint) => Some(endpoint@),
                None => None,
            },
        ),
{
    let mut key: Vec<char> = chars_of(app_type);
    append_str(&mut key, ":");
    append_str(&mut key, provider_id);
    if let Some(endpoint) = endpoint {
        if !endpoint.is_empty() {
            let chars: Vec<char> = chars_of(endpoint);
            let end: usize = position(chars.as_slice(), '?', 0);
            assert(chars@.skip(0) == chars@);
            append_str(&mut key, ":");
            append(&mut key, vstd::slice::slice_subrange(chars.as_slice(), 0, end));
            assert(chars@.subrange(0, end as int) == endpoint_path(endpoint@));
        }
    }
    string_of(key.as_slice())
}

/// Outcome of one degradation event, stored for auditing.
#[derive(Debug, Clone, Copy, PartialEq, Eq, Structural)]
pub enum SemanticOutcome {
    /// Probe detected a degradation but replay was disabled (dry-run).
    DryRun,
    /// Replay was attempted and the next attempt was healthy.
    Recovered,
    /// Replay budget exhausted while still degraded.
    Exhausted,
    /// Replay was enabled but skipped because this target's semantic circuit is open.
    CircuitOpen,
}

impl SemanticOutcome {
    /// The name of the outcome in the audit table.
    pub open spec fn name(self) -> Seq<char> {
        match self {
            SemanticOutcome::DryRun => "dry_run"@,
            SemanticOutcome::Recovered => "recovered"@,
            SemanticOutcome::Exhausted => "exhausted"@,
            SemanticOutcome::CircuitOpen => "circuit_open"@,
        }
    }

    pub fn as_str(self) -> (r: &'static str)
        ensures
            r@ == self.name(),
    {
        match self {
            SemanticOutcome::DryRun => "dry_run",
            SemanticOutcome::Recovered => "recovered",
            SemanticOutcome::Exhausted => "exhausted",
            SemanticOutcome::CircuitOpen => "circuit_open",
        }
    }
}

/// Independent semantic circuit breaker. Keyed by `app_type:provider_id[:path]`.
pub struct SemanticGuard {
    /// key -> times of semantic failures inside the rolling window.
    failures: StringHashMap<Vec<u128>>,
    /// key -> the time at which the circuit closes again.
    open_until: StringHashMap<u128>,
}

/// What a circuit breaker knows of a target: the times of its failures that still
/// count, and when its circuit closes again where it is open.
#[verifier::ext_equal]
pub struct GuardView {
    pub failures: Map<Seq<char>, Seq<u128>>,
    pub open_until: Map<Seq<char>, u128>,
}

/// Whether a failure at `stamp` still counts at `now`. One that lies ahead of
/// `now` does.
pub open spec fn counts(stamp: u128, now: u128) -> bool {
    now - stamp < SEMANTIC_FAILURE_WINDOW
}

/// The failures that still count at `now`.
pub open spec fn recent(stamps: Seq<u128>, now: u128) -> Seq<u128>
    decreases stamps.len(),
{
    if stamps.len() == 0 {
        seq![]
    } else if counts(stamps.last(), now) {
        recent(stamps.drop_last(), now).push(stamps.last())
    } else {
        recent(stamps.drop_last(), now)
    }
}

impl SemanticProbeConfig {
    /// The number of failures that opens the circuit: at least one.
    pub open spec fn threshold(self) -> nat {
        if self.circuit_failure_threshold < 1 {
            1
        } else {
            self.circuit_failure_threshold as nat
        }
    }

    /// For how long the circuit stays open, in nanoseconds: at least a second.
    pub open spec fn cooldown(self) -> nat {
        if self.circuit_timeout_seconds < 1 {
            NANOS_PER_SEC as nat
        } else {
            self.circuit_timeout_seconds as nat * NANOS_PER_SEC as nat
        }
    }
}

impl GuardView {
    /// The state before any failure.
    pub open spec fn fresh() -> GuardView {
        GuardView { failures: Map::empty(), open_until: Map::empty() }
    }

    /// The failures on record for a target.
    pub open spec fn stamps(self, key: Seq<char>) -> Seq<u128> {
        if self.failures.contains_key(key) {
            self.failures[key]
        } else {
            seq![]
        }
    }

    /// Whether the circuit of a target is open.
    pub open spec fn is_open(self, key: Seq<char>, now: u128) -> bool {
        self.open_until.contains_key(key) && self.open_until[key] > now
    }

    /// The state in which nothing is on record for a target.
    pub open spec fn cleared(self, key: Seq<char>) -> GuardView {
        GuardView { failures: self.failures.remove(key), open_until: self.open_until.remove(key) }
    }

    /// The state once it has been asked whether a target may be attempted: a
    /// circuit whose time is over closes, and its failures are forgotten.
    pub open spec fn asked(self, key: Seq<char>, now: u128) -> GuardView {
        if self.open_until.contains_key(key) && !self.is_open(key, now) {
            self.cleared(key)
        } else {
            self
        }
    }

    /// The failures that count once one more has come.
    pub open spec fn counted(self, key: Seq<char>, now: u128) -> Seq<u128> {
        recent(self.stamps(key), now).push(now)
    }

    /// Whether one more failure opens the circuit.
    pub open spec fn trips(self, key: Seq<char>, config: SemanticProbeConfig, now: u128) -> bool {
        self.counted(key, now).len() >= config.threshold()
    }

    /// The state once one more failure has come.
    pub open spec fn failed(
        self,
        key: Seq<char>,
        config: SemanticProbeConfig,
        now: u128,
    ) -> GuardView {
        if self.trips(key, config, now) {
            GuardView {
                failures: self.failures.remove(key),
                open_until: self.open_until.insert(key, (now + config.cooldown()) as u128),
            }
        } else {
            GuardView { failures: self.failures.insert(key, self.counted(key, now)), ..self }
        }
    }
}

/// The times of failures, by target.
pub open spec fn stamp_views(m: Map<Seq<char>, Vec<u128>>) -> Map<Seq<char>, Seq<u128>> {
    m.map_values(|stamps: Vec<u128>| stamps@)
}

impl View for SemanticGuard {
    type V = GuardView;

    closed spec fn view(&self) -> GuardView {
        GuardView { failures: stamp_views(self.failures@), open_until: self.open_until@ }
    }
}

impl Default for SemanticGuard {
    fn default() -> (r: Self)
        ensures
            r@ == GuardView::fresh(),
    {
        SemanticGuard::new()
    }
}

impl SemanticGuard {
    pub fn new() -> (r: Self)
        ensures
            r@ == GuardView::fresh(),
    {
        let r = SemanticGuard { failures: StringHashMap::new(), open_until: StringHashMap::new() };
        assert(r@ =~= GuardView::fresh());
        r
    }

    /// `true` when the target may be attempted.
    pub fn allow(&mut self, key: &str, now: u128) -> (r: bool)
        ensures
            r == !old(self)@.is_open(key@, now),
            final(self)@ == old(self)@.asked(key@, now),
    {
        let until: Option<u128> = match self.open_until.get(key) {
            Some(until) => Some(*until),
            None => None,
        };
        match until {
            Some(until) => {
                if until > now {
                    return false;
                }
                self.open_until.remove(key);
                self.failures.remove(key);
                assert(self@ =~= old(self)@.asked(key@, now));
                true
            },
            None => true,
        }
    }

    /// The failures on record for a target that still count.
    fn recent_stamps(&self, key: &str, now: u128) -> (r: Vec<u128>)
        ensures
            r@ == recent(self@.stamps(key@), now),
    {
        let mut out: Vec<u128> = Vec::new();
        match self.failures.get(key) {
            Some(stamps) => {
                assert(self@.stamps(key@) == stamps@);
                let n: usize = stamps.len();
                for i in 0..n
                    invariant
                        n == stamps@.len(),
                        out@ == recent(stamps@.take(i as int), now),
                {
                    let stamp: u128 = stamps[i];
                    assert(stamps@.take(i + 1).drop_last() == stamps@.take(i as int));
                    if now < stamp || now - stamp < SEMANTIC_FAILURE_WINDOW {
                        out.push(stamp);
                    }
                }
                assert(stamps@.take(n as int) == stamps@);
            },
            None => {},
        }
        out
    }

    /// Record a semantic failure that survived replay. Returns `true` if this
    /// pushed the target into cooldown.
    pub fn record_failure(&mut self, key: &str, config: &SemanticProbeConfig, now: u128) -> (r: bool)
        requires
            now + config.cooldown() <= u128::MAX,
        ensures
            r == old(self)@.trips(key@, *config, now),
            final(self)@ == old(self)@.failed(key@, *config, now),
    {
        let threshold: usize = if config.circuit_failure_threshold < 1 {
            1
        } else {
            config.circuit_failure_threshold as usize
        };
        let mut stamps: Vec<u128> = self.recent_stamps(key, now);
        stamps.push(now);
        if stamps.len() >= threshold {
            let seconds: u32 = if config.circuit_timeout_seconds < 1 {
                1
            } else {
                config.circuit_timeout_seconds
            };
            let cooldown: u128 = seconds as u128 * NANOS_PER_SEC;
            self.open_until.insert(key.to_owned(), now + cooldown);
            self.failures.remove(key);
            assert(self@ =~= old(self)@.failed(key@, *config, now));
            return true;
        }
        self.failures.insert(key.to_owned(), stamps);
        assert(self@ =~= old(self)@.failed(key@, *config, now));
        false
    }

    /// A healthy send clears the rolling window for this target.
    pub fn record_success(&mut self, key: &str)
        ensures
            final(self)@ == old(self)@.cleared(key@),
    {
        self.failures.remove(key);
        self.open_until.remove(key);
        assert(self@ =~= old(self)@.cleared(key@));
    }

    /// The number of failures on record for a target.
    pub fn failure_count(&self, key: &str) -> (r: usize)
        ensures
            r == self@.stamps(key@).len(),
    {
        match self.failures.get(key) {
            Some(stamps) => stamps.len(),
            None => 0,
        }
    }
}

} // verus!
