//! What holds of the replay policy and of the semantic circuit breaker.

use vstd::prelude::*;

use crate::json::{lookup, JsonView};
use crate::laws::wording::{digit_value, hex_reads_back, number_of, the_first_place_splits};
use crate::semantic_guard::{
    allowed_sends, cache_key, counts, endpoint_path, next_action, perturbation, perturbed_key, recent, target_key,
    with_cache_key, with_field, GuardView, SemanticAction, SemanticOutcome,
    SemanticProbeConfig, NANOS_PER_SEC, SEMANTIC_FAILURE_WINDOW,
};
use crate::text::{digit, find_char_bounds, find_char_is, hex};

verus! {

/// How many sends a client request gets where every response is degraded and so
/// many sends are done.
pub open spec fn total_sends(done: int, max_attempts: u32) -> int
    decreases 3 - done,
{
    if next_action(done, max_attempts) == SemanticAction::GiveUp {
        done
    } else {
        total_sends(done + 1, max_attempts)
    }
}

/// A client request is sent as often as configured, once at least and three times
/// at most, whatever is configured.
pub proof fn sends_are_bounded(max_attempts: u32)
    ensures
        total_sends(1, max_attempts) == allowed_sends(max_attempts),
        1 <= total_sends(1, max_attempts) <= 3,
        1 <= max_attempts <= 3 ==> total_sends(1, max_attempts) == max_attempts,
{
    reveal_with_fuel(total_sends, 4);
}

/// The cache key is perturbed for a third send and for no other one. With a budget
/// of two sends it never is.
pub proof fn only_a_third_send_is_perturbed(done: int, max_attempts: u32)
    requires
        done >= 1,
    ensures
        next_action(done, max_attempts) == SemanticAction::RetryPerturbed <==> done == 2
            && max_attempts >= 3,
        next_action(done, max_attempts) == SemanticAction::RetrySame <==> done == 1 && max_attempts
            >= 2,
{
}

/// Fields that a change of one field leaves alone: all others keep what stands
/// under them, and every key keeps its place.
proof fn one_field_changes(
    fields: Seq<(Seq<char>, JsonView)>,
    key: Seq<char>,
    value: JsonView,
    other: Seq<char>,
)
    ensures
        with_field(fields, key, value).len() == fields.len(),
        forall|i: int|
            0 <= i < fields.len() ==> (#[trigger] with_field(fields, key, value)[i]).0
                == fields[i].0,
        other != key ==> lookup(with_field(fields, key, value), other) == lookup(fields, other),
        lookup(fields, key) is Some ==> lookup(with_field(fields, key, value), key) == Some(value),
        lookup(fields, key) is None ==> with_field(fields, key, value) == fields,
    decreases fields.len(),
{
    if fields.len() > 0 {
        let rest = fields.drop_first();
        let changed = with_field(fields, key, value);
        one_field_changes(rest, key, value, other);
        if fields[0].0 == key {
            assert(changed.drop_first() == rest);
        } else {
            assert(changed.drop_first() == with_field(rest, key, value));
            assert forall|i: int| 0 <= i < fields.len() implies (#[trigger] changed[i]).0
                == fields[i].0 by {
                if i > 0 {
                    assert(changed[i] == with_field(rest, key, value)[i - 1]);
                    assert(fields[i] == rest[i - 1]);
                }
            }
            if lookup(fields, key) is None {
                assert(changed =~= fields);
            }
        }
    }
}

/// A perturbed body is the body with another cache key: every other field keeps
/// what stands under it.
pub proof fn perturbation_only_touches_the_cache_key(
    body: JsonView,
    key: Seq<char>,
    other: Seq<char>,
)
    requires
        cache_key(body) is Some,
        key.len() > 0,
    ensures
        other != "prompt_cache_key"@ ==> with_cache_key(body, key).field(other) == body.field(
            other,
        ),
        cache_key(with_cache_key(body, key)) == Some(key),
        with_cache_key(body, key)->Object_0.len() == body->Object_0.len(),
        forall|i: int|
            0 <= i < body->Object_0.len() ==> (#[trigger] with_cache_key(
                body,
                key,
            )->Object_0[i]).0 == body->Object_0[i].0,
{
    one_field_changes(body->Object_0, "prompt_cache_key"@, JsonView::String(key), other);
}

/// A cache key is never invented: a body that has none stays as it is.
pub proof fn cache_keys_are_not_invented(body: JsonView, key: Seq<char>)
    requires
        body.field("prompt_cache_key"@) is None,
    ensures
        with_cache_key(body, key) == body,
        cache_key(body) is None,
{
    if let JsonView::Object(fields) = body {
        one_field_changes(fields, "prompt_cache_key"@, JsonView::String(key), key);
    }
}

proof fn hex_shape(n: nat, width: nat)
    ensures
        hex(n, width).len() == width,
    decreases width,
{
    if width > 0 {
        hex_shape(n / 16, (width - 1) as nat);
    }
}

/// Sixteen to the given power.
spec fn sixteen_to(width: nat) -> nat
    decreases width,
{
    if width == 0 {
        1
    } else {
        16 * sixteen_to((width - 1) as nat)
    }
}

/// Numbers that fit into so many digits have different digits where they differ.
proof fn hex_is_exact(one: nat, other: nat, width: nat)
    requires
        one < sixteen_to(width),
        other < sixteen_to(width),
        hex(one, width) == hex(other, width),
    ensures
        one == other,
    decreases width,
{
    if width > 0 {
        let rest = (width - 1) as nat;
        let a = hex(one / 16, rest);
        let b = hex(other / 16, rest);
        hex_shape(one / 16, rest);
        hex_shape(other / 16, rest);
        assert(hex(one, width).drop_last() == a);
        assert(hex(other, width).drop_last() == b);
        assert(hex(one, width).last() == digit((one % 16) as int));
        assert(hex(other, width).last() == digit((other % 16) as int));
        assert(one % 16 == other % 16);
        hex_is_exact(one / 16, other / 16, rest);
    }
}

/// A perturbed key is the key with a suffix of 21 characters: it differs from the
/// key, and different salts give different keys.
pub proof fn perturbed_keys_differ(key: Seq<char>, one: u64, other: u64)
    ensures
        key.is_prefix_of(perturbed_key(key, one)),
        perturbed_key(key, one).len() == key.len() + 21,
        perturbed_key(key, one) != key,
        perturbed_key(key, one) == perturbed_key(key, other) ==> one == other,
{
    reveal_strlit("-sem-");
    hex_shape(one as nat, 16);
    hex_shape(other as nat, 16);
    assert(perturbed_key(key, one).take(key.len() as int) =~= key);
    if perturbed_key(key, one) == perturbed_key(key, other) {
        let n = key.len() as int + 5;
        assert(perturbed_key(key, one).skip(n) =~= hex(one as nat, 16));
        assert(perturbed_key(key, other).skip(n) =~= hex(other as nat, 16));
        assert(sixteen_to(16) == 0x1_0000_0000_0000_0000) by {
            reveal_with_fuel(sixteen_to, 17);
        }
        hex_is_exact(one as nat, other as nat, 16);
    }
}

/// A query does not change the circuit of a target.
pub proof fn queries_do_not_matter(
    app_type: Seq<char>,
    provider_id: Seq<char>,
    path: Seq<char>,
    query: Seq<char>,
)
    requires
        path.len() > 0,
        !path.contains('?'),
    ensures
        target_key(app_type, provider_id, Some(path + "?"@ + query)) == target_key(
            app_type,
            provider_id,
            Some(path),
        ),
        target_key(app_type, provider_id, Some(path)) == app_type + ":"@ + provider_id + ":"@
            + path,
{
    reveal_strlit("?");
    let endpoint = path + "?"@ + query;
    let n = path.len() as int;
    assert forall|i: int| 0 <= i < n implies #[trigger] path[i] != '?' by {
        assert(path.contains(path[i]));
    }
    assert forall|i: int| 0 <= i < n implies #[trigger] endpoint[i] != '?' by {
        assert(endpoint[i] == path[i]);
    }
    find_char_is(endpoint, '?', n);
    find_char_is(path, '?', n);
    assert(endpoint_path(endpoint) =~= path);
    assert(endpoint_path(path) =~= path);
}

/// Different paths of a provider have different circuits, and none of them is the
/// circuit of the provider as a whole.
pub proof fn circuits_are_scoped_to_endpoints(
    app_type: Seq<char>,
    provider_id: Seq<char>,
    one: Seq<char>,
    other: Seq<char>,
)
    requires
        one.len() > 0,
        other.len() > 0,
    ensures
        target_key(app_type, provider_id, Some(one)) == target_key(
            app_type,
            provider_id,
            Some(other),
        ) <==> endpoint_path(one) == endpoint_path(other),
        target_key(app_type, provider_id, Some(one)) != target_key(app_type, provider_id, None),
{
    reveal_strlit(":");
    find_char_bounds(one, '?');
    find_char_bounds(other, '?');
    let start = app_type + ":"@ + provider_id + ":"@;
    let n = start.len() as int;
    assert(target_key(app_type, provider_id, Some(one)).skip(n) =~= endpoint_path(one));
    assert(target_key(app_type, provider_id, Some(other)).skip(n) =~= endpoint_path(other));
    assert(target_key(app_type, provider_id, None).len() == n - 1);
}

/// What is done for one target leaves every other one alone.
pub proof fn targets_are_independent(
    guard: GuardView,
    key: Seq<char>,
    other: Seq<char>,
    config: SemanticProbeConfig,
    now: u128,
    then: u128,
)
    requires
        other != key,
    ensures
        guard.failed(key, config, now).stamps(other) == guard.stamps(other),
        guard.failed(key, config, now).is_open(other, then) == guard.is_open(other, then),
        guard.asked(key, now).stamps(other) == guard.stamps(other),
        guard.asked(key, now).is_open(other, then) == guard.is_open(other, then),
        guard.cleared(key).stamps(other) == guard.stamps(other),
        guard.cleared(key).is_open(other, then) == guard.is_open(other, then),
{
}

/// A failure that trips opens the circuit until the cooldown is over, not shorter
/// and not longer, and starts the count anew.
pub proof fn tripped_circuits_cool_down(
    guard: GuardView,
    key: Seq<char>,
    config: SemanticProbeConfig,
    now: u128,
    then: u128,
)
    requires
        guard.trips(key, config, now),
        now + config.cooldown() <= u128::MAX,
    ensures
        guard.failed(key, config, now).is_open(key, then) <==> then < now + config.cooldown(),
        guard.failed(key, config, now).stamps(key).len() == 0,
        config.cooldown() >= 1_000_000_000,
{
    assert(config.circuit_timeout_seconds >= 1 ==> config.circuit_timeout_seconds as nat
        * 1_000_000_000 >= 1_000_000_000) by (nonlinear_arith);
}

/// A failure that does not trip leaves the circuit as it was.
pub proof fn other_failures_keep_the_circuit(
    guard: GuardView,
    key: Seq<char>,
    config: SemanticProbeConfig,
    now: u128,
    then: u128,
)
    requires
        !guard.trips(key, config, now),
    ensures
        guard.failed(key, config, now).is_open(key, then) == guard.is_open(key, then),
        guard.failed(key, config, now).stamps(key) == guard.counted(key, now),
{
}

/// Once it has been asked for a target whose circuit is not open, the circuit is
/// closed at every time, until another failure trips it; one whose time is over
/// also forgets its failures. Asking again changes nothing.
pub proof fn asking_closes_circuits_whose_time_is_over(
    guard: GuardView,
    key: Seq<char>,
    now: u128,
    then: u128,
)
    ensures
        !guard.is_open(key, now) ==> !guard.asked(key, now).is_open(key, then),
        guard.is_open(key, now) ==> guard.asked(key, now) == guard,
        guard.open_until.contains_key(key) && !guard.is_open(key, now) ==> guard.asked(
            key,
            now,
        ).stamps(key).len() == 0,
        guard.asked(key, now).asked(key, now) == guard.asked(key, now),
{
    assert(guard.asked(key, now).asked(key, now) =~= guard.asked(key, now));
}

/// A success clears a target: no failure is on record, and the circuit is closed.
pub proof fn success_clears(guard: GuardView, key: Seq<char>, then: u128)
    ensures
        guard.cleared(key).stamps(key).len() == 0,
        !guard.cleared(key).is_open(key, then),
{
}

/// Different outcomes have different names in the audit table.
pub proof fn outcome_names_differ(one: SemanticOutcome, other: SemanticOutcome)
    ensures
        one.name() == other.name() <==> one == other,
{
    reveal_strlit("dry_run");
    reveal_strlit("recovered");
    reveal_strlit("exhausted");
    reveal_strlit("circuit_open");
    assert("recovered"@[0] == 'r');
    assert("exhausted"@[0] == 'e');
    assert(one.name().len() == other.name().len() && one.name()[0] == other.name()[0] ==> one
        == other);
}

/// Each outcome has its own name in the audit table, and the name tells which outcome
/// it is.
pub proof fn outcomes_are_told_by_their_names(outcome: SemanticOutcome)
    ensures
        outcome.name() == "dry_run"@ <==> outcome == SemanticOutcome::DryRun,
        outcome.name() == "recovered"@ <==> outcome == SemanticOutcome::Recovered,
        outcome.name() == "exhausted"@ <==> outcome == SemanticOutcome::Exhausted,
        outcome.name() == "circuit_open"@ <==> outcome == SemanticOutcome::CircuitOpen,
{
    outcome_names_differ(outcome, SemanticOutcome::DryRun);
    outcome_names_differ(outcome, SemanticOutcome::Recovered);
    outcome_names_differ(outcome, SemanticOutcome::Exhausted);
    outcome_names_differ(outcome, SemanticOutcome::CircuitOpen);
}

/// The state once failures have come at these times.
pub open spec fn after_failures(
    guard: GuardView,
    key: Seq<char>,
    config: SemanticProbeConfig,
    times: Seq<u128>,
) -> GuardView
    decreases times.len(),
{
    if times.len() == 0 {
        guard
    } else {
        after_failures(guard, key, config, times.drop_last()).failed(key, config, times.last())
    }
}

proof fn recent_is_shorter(stamps: Seq<u128>, now: u128)
    ensures
        recent(stamps, now).len() <= stamps.len(),
    decreases stamps.len(),
{
    if stamps.len() > 0 {
        recent_is_shorter(stamps.drop_last(), now);
    }
}

proof fn all_are_recent(stamps: Seq<u128>, now: u128)
    requires
        forall|i: int| 0 <= i < stamps.len() ==> counts(#[trigger] stamps[i], now),
    ensures
        recent(stamps, now) == stamps,
    decreases stamps.len(),
{
    if stamps.len() > 0 {
        assert forall|i: int| 0 <= i < stamps.len() - 1 implies counts(
            #[trigger] stamps.drop_last()[i],
            now,
        ) by {
            assert(stamps.drop_last()[i] == stamps[i]);
        }
        all_are_recent(stamps.drop_last(), now);
        assert(counts(stamps[stamps.len() - 1], now));
        assert(stamps.drop_last().push(stamps.last()) =~= stamps);
    }
}

/// Fewer failures than the threshold never open the circuit, whenever they come.
pub proof fn few_failures_never_trip(
    guard: GuardView,
    key: Seq<char>,
    config: SemanticProbeConfig,
    times: Seq<u128>,
    then: u128,
)
    requires
        guard.stamps(key).len() == 0,
        times.len() < config.threshold(),
    ensures
        after_failures(guard, key, config, times).is_open(key, then) == guard.is_open(key, then),
        after_failures(guard, key, config, times).stamps(key).len() <= times.len(),
    decreases times.len(),
{
    if times.len() > 0 {
        let shorter = times.drop_last();
        few_failures_never_trip(guard, key, config, shorter, then);
        recent_is_shorter(
            after_failures(guard, key, config, shorter).stamps(key),
            times.last(),
        );
    }
}

/// As many failures as the threshold, all of them within the window, open the
/// circuit with the last one and not before.
pub proof fn threshold_failures_trip(
    guard: GuardView,
    key: Seq<char>,
    config: SemanticProbeConfig,
    times: Seq<u128>,
)
    requires
        guard.stamps(key).len() == 0,
        times.len() == config.threshold(),
        forall|i: int, j: int|
            0 <= i <= j < times.len() ==> #[trigger] times[j] - #[trigger] times[i]
                < SEMANTIC_FAILURE_WINDOW,
    ensures
        forall|n: int|
            0 <= n < times.len() ==> (#[trigger] after_failures(
                guard,
                key,
                config,
                times.take(n),
            ).trips(key, config, times[n]) <==> n == times.len() - 1),
{
    assert forall|n: int| 0 <= n < times.len() implies (#[trigger] after_failures(
        guard,
        key,
        config,
        times.take(n),
    ).trips(key, config, times[n]) <==> n == times.len() - 1) by {
        failures_pile_up(guard, key, config, times, n);
        all_are_recent(times.take(n), times[n]);
    }
}

proof fn failures_pile_up(
    guard: GuardView,
    key: Seq<char>,
    config: SemanticProbeConfig,
    times: Seq<u128>,
    n: int,
)
    requires
        guard.stamps(key).len() == 0,
        times.len() == config.threshold(),
        0 <= n < times.len(),
        forall|i: int, j: int|
            0 <= i <= j < times.len() ==> #[trigger] times[j] - #[trigger] times[i]
                < SEMANTIC_FAILURE_WINDOW,
    ensures
        after_failures(guard, key, config, times.take(n)).stamps(key) == times.take(n),
    decreases n,
{
    if n > 0 {
        failures_pile_up(guard, key, config, times, n - 1);
        assert(times.take(n).drop_last() == times.take(n - 1));
        all_are_recent(times.take(n - 1), times[n - 1]);
        assert(times.take(n - 1).push(times[n - 1]) =~= times.take(n));
    } else {
        assert(times.take(0) == Seq::<u128>::empty());
    }
}

/// Failures that lie a window or more back do not count.
pub proof fn old_failures_do_not_count(guard: GuardView, key: Seq<char>, now: u128)
    requires
        forall|i: int|
            0 <= i < guard.stamps(key).len() ==> now - #[trigger] guard.stamps(key)[i]
                >= SEMANTIC_FAILURE_WINDOW,
    ensures
        guard.counted(key, now) == seq![now],
{
    none_are_recent(guard.stamps(key), now);
    assert(guard.counted(key, now) =~= seq![now]);
}

proof fn none_are_recent(stamps: Seq<u128>, now: u128)
    requires
        forall|i: int|
            0 <= i < stamps.len() ==> now - #[trigger] stamps[i] >= SEMANTIC_FAILURE_WINDOW,
    ensures
        recent(stamps, now).len() == 0,
    decreases stamps.len(),
{
    if stamps.len() > 0 {
        assert(now - stamps[stamps.len() - 1] >= SEMANTIC_FAILURE_WINDOW);
        assert forall|i: int| 0 <= i < stamps.len() - 1 implies now
            - #[trigger] stamps.drop_last()[i] >= SEMANTIC_FAILURE_WINDOW by {
            assert(stamps.drop_last()[i] == stamps[i]);
        }
        none_are_recent(stamps.drop_last(), now);
    }
}

/// A call of the circuit breaker.
pub enum GuardCall {
    /// It was asked whether a target may be attempted.
    Asked { key: Seq<char>, now: u128 },
    /// A target failed.
    Failed { key: Seq<char>, config: SemanticProbeConfig, now: u128 },
    /// A target succeeded.
    Succeeded { key: Seq<char> },
}

impl GuardCall {
    /// The target that the call is about.
    pub open spec fn target(self) -> Seq<char> {
        match self {
            GuardCall::Asked { key, .. } => key,
            GuardCall::Failed { key, .. } => key,
            GuardCall::Succeeded { key } => key,
        }
    }

    /// The state that the call leads to.
    pub open spec fn leads_to(self, guard: GuardView) -> GuardView {
        match self {
            GuardCall::Asked { key, now } => guard.asked(key, now),
            GuardCall::Failed { key, config, now } => guard.failed(key, config, now),
            GuardCall::Succeeded { key } => guard.cleared(key),
        }
    }

    /// Whether the call starts the count of its target anew: it is a success, a
    /// failure that opens the circuit, or it closes a circuit whose time is over.
    pub open spec fn resets(self, guard: GuardView) -> bool {
        match self {
            GuardCall::Asked { key, now } => guard.open_until.contains_key(key) && !guard.is_open(
                key,
                now,
            ),
            GuardCall::Failed { key, config, now } => guard.trips(key, config, now),
            GuardCall::Succeeded { .. } => true,
        }
    }
}

/// The state of a circuit breaker once these calls have been made.
pub open spec fn after_calls(calls: Seq<GuardCall>) -> GuardView
    decreases calls.len(),
{
    if calls.len() == 0 {
        GuardView::fresh()
    } else {
        calls.last().leads_to(after_calls(calls.drop_last()))
    }
}

/// The times of all failures of a target since its count last started anew, however
/// long ago they are.
pub open spec fn failures_since_reset(calls: Seq<GuardCall>, key: Seq<char>) -> Seq<u128>
    decreases calls.len(),
{
    if calls.len() == 0 {
        seq![]
    } else {
        let earlier = failures_since_reset(calls.drop_last(), key);
        if calls.last().target() != key {
            earlier
        } else if calls.last().resets(after_calls(calls.drop_last())) {
            seq![]
        } else {
            match calls.last() {
                GuardCall::Failed { now, .. } => earlier.push(now),
                _ => earlier,
            }
        }
    }
}

/// Whether no failure of a target comes before an earlier one, or after `now`.
pub open spec fn in_order_of_time(calls: Seq<GuardCall>, key: Seq<char>, now: u128) -> bool
    decreases calls.len(),
{
    calls.len() > 0 ==> match calls.last() {
        GuardCall::Failed { key: failed, now: then, .. } => if failed == key {
            then <= now && in_order_of_time(calls.drop_last(), key, then)
        } else {
            in_order_of_time(calls.drop_last(), key, now)
        },
        _ => in_order_of_time(calls.drop_last(), key, now),
    }
}

/// After any calls, a failure opens the circuit if and only if it and the failures
/// since the last reset that still count, those less than
/// `SEMANTIC_FAILURE_WINDOW` old, reach the threshold.
pub proof fn failures_trip_by_the_sliding_window(
    calls: Seq<GuardCall>,
    key: Seq<char>,
    config: SemanticProbeConfig,
    now: u128,
)
    requires
        in_order_of_time(calls, key, now),
    ensures
        after_calls(calls).trips(key, config, now) <==> recent(
            failures_since_reset(calls, key),
            now,
        ).len() + 1 >= config.threshold(),
{
    forgetting_loses_nothing(calls, key, now);
}

/// What counts of a sequence are exactly its members that lie less than a window
/// back.
pub proof fn what_counts_is_what_is_young(stamps: Seq<u128>, now: u128)
    ensures
        recent(stamps, now) == stamps.filter(|stamp: u128| now - stamp < SEMANTIC_FAILURE_WINDOW),
    decreases stamps.len(),
{
    reveal(Seq::filter);
    if stamps.len() > 0 {
        what_counts_is_what_is_young(stamps.drop_last(), now);
    }
}

proof fn what_counts_later_counts_now(stamps: Seq<u128>, now: u128, later: u128)
    requires
        now <= later,
    ensures
        recent(recent(stamps, now), later) == recent(stamps, later),
    decreases stamps.len(),
{
    if stamps.len() > 0 {
        what_counts_later_counts_now(stamps.drop_last(), now, later);
        let kept = recent(stamps.drop_last(), now);
        assert(kept.push(stamps.last()).drop_last() == kept);
    }
}

/// The failures that were forgotten because they were too old would not count
/// later either.
proof fn forgetting_loses_nothing(calls: Seq<GuardCall>, key: Seq<char>, now: u128)
    requires
        in_order_of_time(calls, key, now),
    ensures
        recent(after_calls(calls).stamps(key), now) == recent(
            failures_since_reset(calls, key),
            now,
        ),
    decreases calls.len(),
{
    if calls.len() > 0 {
        let earlier = calls.drop_last();
        let guard = after_calls(earlier);
        let call = calls.last();
        if call.target() != key {
            forgetting_loses_nothing(earlier, key, now);
        } else {
            match call {
                GuardCall::Failed { config, now: then, .. } => {
                    if !guard.trips(key, config, then) {
                        forgetting_loses_nothing(earlier, key, then);
                        let stamps = guard.stamps(key);
                        let since = failures_since_reset(earlier, key);
                        what_counts_later_counts_now(stamps, then, now);
                        what_counts_later_counts_now(since, then, now);
                        let kept = recent(stamps, then);
                        assert(kept.push(then).drop_last() == kept);
                        assert(since.push(then).drop_last() == since);
                    }
                },
                _ => {
                    if !call.resets(guard) {
                        forgetting_loses_nothing(earlier, key, now);
                    }
                },
            }
        }
    }
}

/// Whatever is configured, a client request is sent once for a budget of zero or one,
/// twice for two, and three times for anything above. Before anything was sent the
/// request goes out as it is.
pub proof fn sends_by_budget(max_attempts: u32)
    ensures
        total_sends(1, max_attempts) == (if max_attempts <= 1 {
            1int
        } else if max_attempts == 2 {
            2int
        } else {
            3int
        }),
        next_action(0, max_attempts) == SemanticAction::RetrySame,
        forall|done: int| done >= 3 ==> #[trigger] next_action(done, max_attempts)
            == SemanticAction::GiveUp,
{
    reveal_with_fuel(total_sends, 4);
}

/// A perturbed key is the key, `-sem-`, and the salt in sixteen lowercase hexadecimal
/// digits.
pub proof fn perturbed_keys_hold_the_salt(key: Seq<char>, salt: u64)
    ensures
        ({
            let n = key.len() as int;
            let perturbed = perturbed_key(key, salt);
            &&& perturbed.len() == n + 21
            &&& perturbed.take(n) == key
            &&& perturbed.subrange(n, n + 5) == seq!['-', 's', 'e', 'm', '-']
            &&& number_of(perturbed.skip(n + 5), 16) == salt
            &&& forall|i: int|
                n + 5 <= i < n + 21 ==> 0 <= digit_value(#[trigger] perturbed[i]) < 16
        }),
{
    reveal_strlit("-sem-");
    hex_reads_back(salt);
    let n = key.len() as int;
    let digits = hex(salt as nat, 16);
    let perturbed = perturbed_key(key, salt);
    assert(perturbed.take(n) =~= key);
    assert(perturbed.subrange(n, n + 5) =~= seq!['-', 's', 'e', 'm', '-']);
    assert(perturbed.skip(n + 5) =~= digits);
    assert forall|i: int| n + 5 <= i < n + 21 implies 0 <= digit_value(#[trigger] perturbed[i])
        < 16 by {
        assert(perturbed[i] == digits[i - n - 5]);
    }
}

/// A body has a cache key to perturb if and only if it is an object whose
/// `prompt_cache_key` is a string that is not empty.
pub proof fn cache_keys_are_strings(body: JsonView, key: Seq<char>)
    ensures
        cache_key(body) == Some(key) <==> key.len() > 0 && (body matches JsonView::Object(fields)
            && lookup(fields, "prompt_cache_key"@) == Some(JsonView::String(key))),
        cache_key(body) is None <==> !(body matches JsonView::Object(fields) && (lookup(
            fields,
            "prompt_cache_key"@,
        ) matches Some(JsonView::String(s)) && s.len() > 0)),
{
}

/// A body is perturbed if and only if it is an object whose `prompt_cache_key` is a
/// string that is not empty, whatever the salt is. The key before is that string, the
/// key after starts with it and differs from it, and it stands in the new body, whose
/// other fields are those of the old one.
pub proof fn perturbing_by_field(body: JsonView, salt: u64, other: Seq<char>)
    ensures
        perturbation(body, salt) is Some <==> (body matches JsonView::Object(fields) && (lookup(
            fields,
            "prompt_cache_key"@,
        ) matches Some(JsonView::String(s)) && s.len() > 0)),
        perturbation(body, salt) matches Some((before, after, changed)) ==> {
            &&& body.field("prompt_cache_key"@) == Some(JsonView::String(before))
            &&& changed.field("prompt_cache_key"@) == Some(JsonView::String(after))
            &&& after == perturbed_key(before, salt)
            &&& before.is_prefix_of(after)
            &&& before != after
            &&& other != "prompt_cache_key"@ ==> changed.field(other) == body.field(other)
        },
{
    if let Some((before, after, changed)) = perturbation(body, salt) {
        perturbed_keys_differ(before, salt, salt);
        perturbation_only_touches_the_cache_key(body, after, other);
    }
}

/// The circuit of a target is named by the application and the provider with a colon
/// between them; where the endpoint is known and not empty, by its path too, behind
/// another colon and without the query.
pub proof fn circuits_by_name(
    app_type: Seq<char>,
    provider_id: Seq<char>,
    path: Seq<char>,
    query: Seq<char>,
)
    requires
        !path.contains('?'),
    ensures
        target_key(app_type, provider_id, None) == app_type.push(':') + provider_id,
        target_key(app_type, provider_id, Some(Seq::empty())) == app_type.push(':') + provider_id,
        target_key(app_type, provider_id, Some(path.push('?') + query)) == (app_type.push(':')
            + provider_id).push(':') + path,
        path.len() > 0 ==> target_key(app_type, provider_id, Some(path)) == (app_type.push(':')
            + provider_id).push(':') + path,
{
    reveal_strlit(":");
    the_first_place_splits(path, '?', query);
    let endpoint = path.push('?') + query;
    assert(endpoint_path(endpoint) =~= path);
    assert(endpoint_path(path) =~= path);
    assert(app_type + ":"@ + provider_id =~= app_type.push(':') + provider_id);
    assert(app_type + ":"@ + provider_id + ":"@ + path =~= (app_type.push(':')
        + provider_id).push(':') + path);
}

/// The number of failures that opens a circuit: what is configured, and one at least.
pub open spec fn at_least_one(configured: u32) -> int {
    if configured == 0 {
        1
    } else {
        configured as int
    }
}

/// A failure that trips opens the circuit of its target for as many seconds as are
/// configured, and one at least: before that time it is open, and from then on it is
/// not.
pub proof fn circuits_stay_open_as_configured(
    guard: GuardView,
    key: Seq<char>,
    config: SemanticProbeConfig,
    now: u128,
    then: u128,
)
    requires
        guard.trips(key, config, now),
        now + at_least_one(config.circuit_timeout_seconds) * 1_000_000_000 <= u128::MAX,
    ensures
        guard.failed(key, config, now).is_open(key, then) <==> then < now + at_least_one(
            config.circuit_timeout_seconds,
        ) * 1_000_000_000,
{
    cooldowns_by_seconds(config);
}

proof fn cooldowns_by_seconds(config: SemanticProbeConfig)
    ensures
        config.cooldown() == at_least_one(config.circuit_timeout_seconds) * 1_000_000_000,
{
    let seconds = config.circuit_timeout_seconds;
    assert(seconds as nat * NANOS_PER_SEC as nat == seconds as int * 1_000_000_000)
        by (nonlinear_arith)
        requires
            NANOS_PER_SEC == 1_000_000_000,
    ;
}

/// How many of these times lie less than five minutes before `now`.
pub open spec fn young(times: Seq<u128>, now: u128) -> nat
    decreases times.len(),
{
    if times.len() == 0 {
        0
    } else if now - times.last() < 300_000_000_000 {
        young(times.drop_last(), now) + 1
    } else {
        young(times.drop_last(), now)
    }
}

proof fn young_ones_count(times: Seq<u128>, now: u128)
    ensures
        recent(times, now).len() == young(times, now),
    decreases times.len(),
{
    if times.len() > 0 {
        young_ones_count(times.drop_last(), now);
    }
}

/// What is known of a target from the calls alone: the times of all its failures since
/// its count last started anew, and the time at which its circuit closes again.
#[verifier::ext_equal]
pub struct History {
    pub since: Seq<u128>,
    pub open_end: Option<int>,
}

/// The history of a target. A failure that comes as the last of the configured number
/// within five minutes opens the circuit for the configured seconds and starts the
/// count anew; any other one is added. A success closes the circuit and starts the
/// count anew, and so does a question from the end of the open time on.
pub open spec fn history(calls: Seq<GuardCall>, key: Seq<char>) -> History
    decreases calls.len(),
{
    if calls.len() == 0 {
        History { since: seq![], open_end: None }
    } else {
        let before = history(calls.drop_last(), key);
        match calls.last() {
            GuardCall::Asked { key: asked, now } => if asked == key && before.open_end is Some
                && before.open_end->0 <= now {
                History { since: seq![], open_end: None }
            } else {
                before
            },
            GuardCall::Failed { key: failed, config, now } => if failed != key {
                before
            } else if young(before.since, now) + 1 >= at_least_one(
                config.circuit_failure_threshold,
            ) {
                History {
                    since: seq![],
                    open_end: Some(
                        now + at_least_one(config.circuit_timeout_seconds) * 1_000_000_000,
                    ),
                }
            } else {
                History { since: before.since.push(now), ..before }
            },
            GuardCall::Succeeded { key: succeeded } => if succeeded == key {
                History { since: seq![], open_end: None }
            } else {
                before
            },
        }
    }
}

/// Whether the open times of all failures of a target can be told by the clock.
pub open spec fn times_fit(calls: Seq<GuardCall>, key: Seq<char>) -> bool
    decreases calls.len(),
{
    calls.len() > 0 ==> times_fit(calls.drop_last(), key) && match calls.last() {
        GuardCall::Failed { key: failed, config, now } => failed == key ==> now + at_least_one(
            config.circuit_timeout_seconds,
        ) * 1_000_000_000 <= u128::MAX,
        _ => true,
    }
}

/// After any calls whose failures come in order of time, the breaker does what the
/// history of the target asks for: the circuit is open exactly until its open time
/// ends, and a failure trips exactly where it completes the configured number within
/// five minutes.
pub proof fn the_breaker_follows_the_history(
    calls: Seq<GuardCall>,
    key: Seq<char>,
    config: SemanticProbeConfig,
    now: u128,
)
    requires
        in_order_of_time(calls, key, now),
        times_fit(calls, key),
    ensures
        after_calls(calls).is_open(key, now) <==> (history(calls, key).open_end matches Some(end)
            && now < end),
        after_calls(calls).trips(key, config, now) <==> young(history(calls, key).since, now) + 1
            >= at_least_one(config.circuit_failure_threshold),
{
    histories_are_kept(calls, key, now);
    failures_trip_by_the_sliding_window(calls, key, config, now);
    young_ones_count(failures_since_reset(calls, key), now);
}

proof fn histories_are_kept(calls: Seq<GuardCall>, key: Seq<char>, now: u128)
    requires
        in_order_of_time(calls, key, now),
        times_fit(calls, key),
    ensures
        history(calls, key).since == failures_since_reset(calls, key),
        after_calls(calls).open_until.contains_key(key) <==> history(calls, key).open_end is Some,
        history(calls, key).open_end matches Some(end) ==> after_calls(calls).open_until[key]
            == end,
    decreases calls.len(),
{
    if calls.len() > 0 {
        let earlier = calls.drop_last();
        match calls.last() {
            GuardCall::Failed { key: failed, config, now: then } => {
                if failed == key {
                    histories_are_kept(earlier, key, then);
                    failures_trip_by_the_sliding_window(earlier, key, config, then);
                    young_ones_count(failures_since_reset(earlier, key), then);
                    cooldowns_by_seconds(config);
                } else {
                    histories_are_kept(earlier, key, now);
                }
            },
            _ => {
                histories_are_kept(earlier, key, now);
            },
        }
    }
}

/// A failure that does not trip is put on record behind the failures that lie less
/// than five minutes back; the others go from the record.
pub proof fn records_hold_the_young_failures(
    guard: GuardView,
    key: Seq<char>,
    config: SemanticProbeConfig,
    now: u128,
)
    requires
        !guard.trips(key, config, now),
    ensures
        guard.failed(key, config, now).stamps(key) == guard.stamps(key).filter(
            |stamp: u128| now - stamp < 300_000_000_000,
        ).push(now),
{
    what_counts_is_what_is_young(guard.stamps(key), now);
    let window = |stamp: u128| now - stamp < SEMANTIC_FAILURE_WINDOW;
    let minutes = |stamp: u128| now - stamp < 300_000_000_000;
    assert(window =~= minutes);
}

} // verus!
