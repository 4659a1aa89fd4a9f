//! What holds of streams whose start is validated.

use vstd::prelude::*;
use vstd::utf8::encode_utf8;

use crate::json::{parsed_json, JsonView};
use crate::laws::decoding::{complete_blocks_stay, decoding_in_parts, decoding_undoes_encoding};
use crate::laws::reporting::{documents_are_reported_by_their_words, tells_of_failure};
use crate::laws::streaming::{all_bytes, arrivals_of, chunks_in};
use crate::laws::wording::{decimal_is_plain, number_of, plain_decimal};
use crate::replay::{total_len, ArrivalView, ReplayTail};
use crate::semantic_detector::{MAX_TIER_A_EVENTS, MAX_TIER_A_WINDOW};
use crate::semantic_error::{
    block_message, body_message, nested_error, text_at, MAX_ERROR_MESSAGE_CHARS,
};
use crate::semantic_guard::{NANOS_PER_SEC, SEMANTIC_FAILURE_WINDOW};
use crate::sse::{block_len_bounds, decoded, first_block, undecoded};
use crate::stream_start::{
    blocks_priming, has_data_line, may_open, opens_event, opens_json, reads_ahead,
    semantic_failure, unfinished, validated, ProxyErrorView, StartStepView, StreamStartView, MAX_PRIME_BYTES,
};
use crate::text::{
    blank, decimal, lines_of, trimmed, trimmed_end_keeps_head, trimmed_start, trimmed_start_shape,
    white_space,
};

verus! {

/// What reading the start of a stream comes to, each read within a time limit of
/// so many whole seconds.
pub open spec fn started(timeout_secs: u64, arrivals: Seq<ArrivalView>) -> StartStepView
    decreases arrivals.len(),
{
    if arrivals.len() == 0 {
        StartStepView::Read(StreamStartView::fresh(timeout_secs))
    } else {
        match started(timeout_secs, arrivals.drop_last()) {
            StartStepView::Read(state) => state.step(arrivals.last()),
            done => done,
        }
    }
}

/// Whether the start of a stream is settled at the arrival with this place.
pub open spec fn start_settles(timeout_secs: u64, arrivals: Seq<ArrivalView>, n: int) -> bool {
    &&& 0 <= n < arrivals.len()
    &&& started(timeout_secs, arrivals.take(n)) is Read
    &&& started(timeout_secs, arrivals.take(n + 1)) == started(timeout_secs, arrivals)
}

/// Whether a step hands a stream on, with these chunks first and this behind them.
spec fn hands_on(step: StartStepView, chunks: Seq<Seq<u8>>, tail: ReplayTail) -> bool {
    step == StartStepView::Commit(chunks, tail) || step == StartStepView::Full(chunks, tail)
}

/// A stream that is handed on is handed on with exactly the chunks that were read,
/// in order and byte for byte. As long as it is read, fewer than
/// `MAX_PRIME_BYTES` bytes are held back; only where so many have come is it
/// handed on without a decision.
pub proof fn committed_streams_lose_nothing(timeout_secs: u64, arrivals: Seq<ArrivalView>)
    ensures
        match started(timeout_secs, arrivals) {
            StartStepView::Read(state) => {
                &&& state.chunks == chunks_in(arrivals)
                &&& total_len(state.chunks) < MAX_PRIME_BYTES
                &&& state.timeout_secs == timeout_secs
            },
            StartStepView::Commit(chunks, tail) => handed_on_intact(
                timeout_secs,
                arrivals,
                chunks,
                tail,
            ),
            StartStepView::Full(chunks, tail) => handed_on_intact(
                timeout_secs,
                arrivals,
                chunks,
                tail,
            ) && total_len(chunks) >= MAX_PRIME_BYTES,
            StartStepView::Refuse(_) => true,
        },
    decreases arrivals.len(),
{
    if arrivals.len() > 0 {
        let shorter = arrivals.drop_last();
        committed_streams_lose_nothing(timeout_secs, shorter);
        let last = arrivals.len() - 1;
        if started(timeout_secs, shorter) is Read {
            assert(arrivals.take(last) == shorter);
            assert(arrivals.take(last + 1) == arrivals);
            assert(start_settles(timeout_secs, arrivals, last) || started(
                timeout_secs,
                arrivals,
            ) is Read);
        } else {
            match started(timeout_secs, shorter) {
                StartStepView::Commit(chunks, tail) => {
                    intact_stays(timeout_secs, arrivals, chunks, tail);
                },
                StartStepView::Full(chunks, tail) => {
                    intact_stays(timeout_secs, arrivals, chunks, tail);
                },
                _ => {},
            }
        }
    }
}

/// Whether the start of a stream is settled by handing on exactly the chunks that
/// were read until then, and the rest of the stream behind them where it has one.
pub open spec fn handed_on_intact(
    timeout_secs: u64,
    arrivals: Seq<ArrivalView>,
    chunks: Seq<Seq<u8>>,
    tail: ReplayTail,
) -> bool {
    exists|n: int|
        {
            &&& #[trigger] start_settles(timeout_secs, arrivals, n)
            &&& chunks == chunks_in(arrivals.take(n + 1))
            &&& tail == (if arrivals[n] is Ended {
                ReplayTail::Nothing
            } else {
                ReplayTail::Upstream
            })
        }
}

proof fn intact_stays(
    timeout_secs: u64,
    arrivals: Seq<ArrivalView>,
    chunks: Seq<Seq<u8>>,
    tail: ReplayTail,
)
    requires
        arrivals.len() > 0,
        hands_on(started(timeout_secs, arrivals.drop_last()), chunks, tail),
        handed_on_intact(timeout_secs, arrivals.drop_last(), chunks, tail),
    ensures
        started(timeout_secs, arrivals) == started(timeout_secs, arrivals.drop_last()),
        handed_on_intact(timeout_secs, arrivals, chunks, tail),
{
    let shorter = arrivals.drop_last();
    let n = choose|n: int|
        {
            &&& #[trigger] start_settles(timeout_secs, shorter, n)
            &&& chunks == chunks_in(shorter.take(n + 1))
            &&& tail == (if shorter[n] is Ended {
                ReplayTail::Nothing
            } else {
                ReplayTail::Upstream
            })
        };
    assert(arrivals.take(n) == shorter.take(n));
    assert(arrivals.take(n + 1) == shorter.take(n + 1));
    assert(start_settles(timeout_secs, arrivals, n));
}

/// Whether a block says nothing: it is no error, and it has no data.
pub open spec fn silent(block: Seq<char>) -> bool {
    block_message(block) is None && !has_data_line(block)
}

/// A text without the blocks at its front that say nothing.
pub open spec fn past_silent_blocks(s: Seq<char>) -> Seq<char>
    decreases s.len(),
{
    proof {
        block_len_bounds(s);
    }
    match first_block(s) {
        Some((block, rest)) => if silent(block) {
            past_silent_blocks(rest)
        } else {
            s
        },
        None => s,
    }
}

/// Whether a text reads as an event stream up to the first block that says
/// something: at its start, and behind each block that says nothing, it shows or
/// may still show a field or a comment.
pub open spec fn reads_as_events(s: Seq<char>) -> bool
    decreases s.len(),
{
    proof {
        block_len_bounds(s);
    }
    opens_event(trimmed_start(s)) && match first_block(s) {
        Some((block, rest)) => silent(block) ==> reads_as_events(rest),
        None => true,
    }
}

proof fn trimming_keeps_what_follows(s: Seq<char>, more: Seq<char>)
    requires
        trimmed_start(s).len() > 0,
    ensures
        trimmed_start(s + more) == trimmed_start(s) + more,
    decreases s.len(),
{
    if s.len() > 0 && white_space(s[0]) {
        assert((s + more).drop_first() == s.drop_first() + more);
        trimming_keeps_what_follows(s.drop_first(), more);
    }
}

proof fn what_opens_a_field_opened_it_before(s: Seq<char>, more: Seq<char>, field: Seq<char>)
    ensures
        may_open(s + more, field) ==> may_open(s, field),
{
    if may_open(s + more, field) {
        if s.len() < field.len() {
            assert(s =~= field.subrange(0, s.len() as int));
        } else {
            assert(field =~= s.subrange(0, field.len() as int));
        }
    }
}

proof fn what_opens_an_event_opened_it_before(s: Seq<char>, more: Seq<char>)
    requires
        opens_event(trimmed_start(s + more)),
    ensures
        opens_event(trimmed_start(s)),
{
    let t = trimmed_start(s);
    if t.len() == 0 {
        assert(t =~= "event:"@.subrange(0, 0));
    } else {
        trimming_keeps_what_follows(s, more);
        what_opens_a_field_opened_it_before(t, more, "event:"@);
        what_opens_a_field_opened_it_before(t, more, "data:"@);
        what_opens_a_field_opened_it_before(t, more, "id:"@);
        what_opens_a_field_opened_it_before(t, more, "retry:"@);
        what_opens_a_field_opened_it_before(t, more, ":"@);
    }
}

/// What reads as an event stream did so at every earlier place.
proof fn streams_read_as_events_before(s: Seq<char>, more: Seq<char>)
    requires
        reads_as_events(s + more),
    ensures
        reads_as_events(s),
        opens_event(trimmed_start(past_silent_blocks(s) + more)),
    decreases s.len(),
{
    block_len_bounds(s);
    block_len_bounds(s + more);
    complete_blocks_stay(s, more);
    what_opens_an_event_opened_it_before(s, more);
    if let Some((block, rest)) = first_block(s) {
        if silent(block) {
            streams_read_as_events_before(rest, more);
        }
    }
}

/// The start of an event is no JSON document.
proof fn events_are_no_documents(s: Seq<char>)
    requires
        opens_event(trimmed_start(s)),
    ensures
        !opens_json(trimmed(s)),
{
    reveal_strlit("event:");
    reveal_strlit("data:");
    reveal_strlit("id:");
    reveal_strlit("retry:");
    reveal_strlit(":");
    let t = trimmed_start(s);
    if t.len() > 0 {
        trimmed_start_shape(s);
        trimmed_end_keeps_head(t);
        starts_like(t, "event:"@);
        starts_like(t, "data:"@);
        starts_like(t, "id:"@);
        starts_like(t, "retry:"@);
        starts_like(t, ":"@);
    }
}

proof fn starts_like(s: Seq<char>, field: Seq<char>)
    requires
        s.len() > 0,
        field.len() > 0,
    ensures
        may_open(s, field) ==> s[0] == field[0],
{
}

/// Blocks that say nothing have no part in what a text calls for.
proof fn silent_blocks_change_nothing(s: Seq<char>)
    ensures
        blocks_priming(s) == blocks_priming(past_silent_blocks(s)),
        first_block(past_silent_blocks(s)) matches Some((block, _)) ==> !silent(block),
    decreases s.len(),
{
    block_len_bounds(s);
    if let Some((block, rest)) = first_block(s) {
        if silent(block) {
            silent_blocks_change_nothing(rest);
        }
    }
}

proof fn past_silent_blocks_in_parts(s: Seq<char>, more: Seq<char>)
    ensures
        past_silent_blocks(s + more) == past_silent_blocks(past_silent_blocks(s) + more),
        first_block(past_silent_blocks(s)) is Some ==> past_silent_blocks(s + more)
            == past_silent_blocks(s) + more,
    decreases s.len(),
{
    block_len_bounds(s);
    complete_blocks_stay(s, more);
    if let Some((block, rest)) = first_block(s) {
        if silent(block) {
            block_len_bounds(s + more);
            past_silent_blocks_in_parts(rest, more);
        }
    }
}

/// The first block of an event stream that says something decides, however the
/// stream is cut into chunks: an error event is refused with what it says, and
/// another event that has data is handed on. Until such a block is complete the
/// stream is read on, up to the chunk with which `MAX_PRIME_BYTES` bytes have come.
/// Comments, other fields, and blocks without data do not count.
pub proof fn the_first_event_decides(timeout_secs: u64, chunks: Seq<Seq<u8>>)
    requires
        reads_as_events(decoded(all_bytes(chunks))),
        chunks.len() > 0 ==> total_len(chunks.drop_last()) < MAX_PRIME_BYTES,
    ensures
        match first_block(past_silent_blocks(decoded(all_bytes(chunks)))) {
            Some((block, _)) => match block_message(block) {
                Some(message) => started(timeout_secs, arrivals_of(chunks))
                    == StartStepView::Refuse(semantic_failure(message)),
                None => started(timeout_secs, arrivals_of(chunks)) matches StartStepView::Commit(
                    _,
                    tail,
                ) && tail == ReplayTail::Upstream,
            },
            None => if total_len(chunks) < MAX_PRIME_BYTES {
                started(timeout_secs, arrivals_of(chunks)) is Read
            } else {
                started(timeout_secs, arrivals_of(chunks)) == StartStepView::Full(
                    chunks,
                    ReplayTail::Upstream,
                )
            },
        },
{
    first_event_state(timeout_secs, chunks);
}

proof fn chunks_add_up(chunks: Seq<Seq<u8>>)
    ensures
        total_len(chunks) == all_bytes(chunks).len(),
    decreases chunks.len(),
{
    if chunks.len() > 0 {
        chunks_add_up(chunks.drop_last());
    }
}

/// How the network cuts an event stream into chunks does not matter to what is
/// done about its start: the same bytes, fewer than `MAX_PRIME_BYTES`, are refused
/// with the same error, handed on, or read on.
pub proof fn cuts_do_not_matter_to_the_start(
    timeout_secs: u64,
    one: Seq<Seq<u8>>,
    other: Seq<Seq<u8>>,
)
    requires
        all_bytes(one) == all_bytes(other),
        all_bytes(one).len() < MAX_PRIME_BYTES,
        reads_as_events(decoded(all_bytes(one))),
    ensures
        match started(timeout_secs, arrivals_of(one)) {
            StartStepView::Read(_) => started(timeout_secs, arrivals_of(other)) is Read,
            StartStepView::Full(_, _) => false,
            StartStepView::Commit(_, tail) => started(
                timeout_secs,
                arrivals_of(other),
            ) matches StartStepView::Commit(_, other_tail) && other_tail == tail,
            StartStepView::Refuse(error) => started(timeout_secs, arrivals_of(other))
                == StartStepView::Refuse(error),
        },
{
    chunks_add_up(one);
    chunks_add_up(other);
    silent_blocks_change_nothing(decoded(all_bytes(one)));
    the_first_event_decides(timeout_secs, one);
    the_first_event_decides(timeout_secs, other);
}

proof fn first_event_state(timeout_secs: u64, chunks: Seq<Seq<u8>>)
    requires
        reads_as_events(decoded(all_bytes(chunks))),
        chunks.len() > 0 ==> total_len(chunks.drop_last()) < MAX_PRIME_BYTES,
    ensures
        ({
            let bytes = all_bytes(chunks);
            let left = past_silent_blocks(decoded(bytes));
            let step = started(timeout_secs, arrivals_of(chunks));
            match first_block(left) {
                Some((block, _)) => match block_message(block) {
                    Some(message) => step == StartStepView::Refuse(semantic_failure(message)),
                    None => step matches StartStepView::Commit(_, tail) && tail
                        == ReplayTail::Upstream,
                },
                None => if total_len(chunks) < MAX_PRIME_BYTES {
                    step == StartStepView::Read(
                        StreamStartView {
                            timeout_secs,
                            chunks,
                            text: left,
                            remainder: undecoded(bytes),
                        },
                    )
                } else {
                    step == StartStepView::Full(chunks, ReplayTail::Upstream)
                },
            }
        }),
    decreases chunks.len(),
{
    let text = decoded(all_bytes(chunks));
    if chunks.len() == 0 {
        assert(all_bytes(chunks) == Seq::<u8>::empty());
        assert(text == Seq::<char>::empty());
        assert(undecoded(all_bytes(chunks)) == Seq::<u8>::empty());
        assert(chunks == Seq::<Seq<u8>>::empty());
        assert(first_block(text) is None);
    } else {
        let shorter = chunks.drop_last();
        let last = chunks.last();
        let before = all_bytes(shorter);
        let seen = decoded(before);
        let more = decoded(undecoded(before) + last);
        assert(arrivals_of(chunks).drop_last() == arrivals_of(shorter));
        assert(shorter.push(last) == chunks);
        decoding_in_parts(before, last);
        assert(text == seen + more);
        streams_read_as_events_before(seen, more);
        first_event_state(timeout_secs, shorter);
        let kept = past_silent_blocks(seen);
        past_silent_blocks_in_parts(seen, more);
        silent_blocks_change_nothing(seen);
        complete_blocks_stay(kept, more);
        if first_block(kept) is None {
            events_are_no_documents(kept + more);
            silent_blocks_change_nothing(kept + more);
            assert(text + Seq::<char>::empty() == text);
            streams_read_as_events_before(text, Seq::empty());
            let left = past_silent_blocks(text);
            assert(left + Seq::<char>::empty() == left);
        }
    }
}

/// The error for a message behind a 2xx status: the message behind fixed words.
pub proof fn semantic_failures_quote_the_message(message: Seq<char>)
    ensures
        semantic_failure(message) == ProxyErrorView::TransformError(
            "Upstream returned a 2xx semantic error: "@ + message,
        ),
{
}

/// A stream is read ahead if and only if its time limit is not zero.
pub proof fn only_a_limit_makes_streams_read_ahead(secs: u64, subsec_nanos: u32)
    ensures
        reads_ahead(secs, subsec_nanos) <==> secs * 1_000_000_000 + subsec_nanos != 0,
        StreamStartView::fresh(secs).chunks.len() == 0,
        StreamStartView::fresh(secs).text.len() == 0,
        StreamStartView::fresh(secs).remainder.len() == 0,
        StreamStartView::fresh(secs).timeout_secs == secs,
{
}

/// A body is let through if and only if, without its content encoding, it is no JSON
/// document that tells of a failure. It is let through as it was received; elsewhere
/// the error quotes what the document says.
pub proof fn bodies_are_validated_by_their_documents(raw: Seq<u8>, plain: Option<Seq<u8>>)
    ensures
        ({
            let body = if plain is Some {
                plain->0
            } else {
                raw
            };
            let failed = parsed_json(body) matches Some(json) && tells_of_failure(json);
            &&& !failed ==> validated(raw, plain) == Ok::<Seq<u8>, ProxyErrorView>(raw)
            &&& failed ==> validated(raw, plain) == Err::<Seq<u8>, ProxyErrorView>(
                ProxyErrorView::TransformError(
                    "Upstream returned a 2xx semantic error: "@ + body_message(body)->0,
                ),
            )
        }),
{
    let body = if plain is Some {
        plain->0
    } else {
        raw
    };
    if let Some(json) = parsed_json(body) {
        documents_are_reported_by_their_words(
            json,
            text_at(json.field("error"@)),
            text_at(nested_error(json)),
        );
    }
}

/// The text that there is to look at once a chunk has come.
pub open spec fn looked_at(state: StreamStartView, bytes: Seq<u8>) -> Seq<char> {
    state.text + decoded(state.remainder + bytes)
}

/// The document that a text is, where, with the white space around it gone, it opens
/// with a brace or a bracket and is JSON.
pub open spec fn document_in(text: Seq<char>) -> Option<JsonView> {
    let t = trimmed(text);
    if t.len() > 0 && (t[0] == '{' || t[0] == '[') {
        parsed_json(encode_utf8(t))
    } else {
        None
    }
}

/// Where the text so far is a JSON object or array, the stream is refused if and only
/// if the document tells of a failure, with what it says. Any other document is handed
/// on, with exactly the chunks that were read and the rest of the stream behind them.
pub proof fn documents_decide_at_once(timeout_secs: u64, arrivals: Seq<ArrivalView>)
    requires
        arrivals.len() > 0,
        arrivals.last() is Chunk,
        started(timeout_secs, arrivals.drop_last()) is Read,
        document_in(
            looked_at(
                started(timeout_secs, arrivals.drop_last())->Read_0,
                arrivals.last()->Chunk_0,
            ),
        ) is Some,
    ensures
        ({
            let text = looked_at(
                started(timeout_secs, arrivals.drop_last())->Read_0,
                arrivals.last()->Chunk_0,
            );
            let json = document_in(text)->0;
            &&& started(timeout_secs, arrivals) is Refuse <==> tells_of_failure(json)
            &&& !tells_of_failure(json) ==> started(timeout_secs, arrivals)
                == StartStepView::Commit(chunks_in(arrivals), ReplayTail::Upstream)
            &&& tells_of_failure(json) ==> started(timeout_secs, arrivals)
                == StartStepView::Refuse(
                ProxyErrorView::TransformError(
                    "Upstream returned a 2xx semantic error: "@ + body_message(
                        encode_utf8(trimmed(text)),
                    )->0,
                ),
            )
        }),
{
    committed_streams_lose_nothing(timeout_secs, arrivals.drop_last());
    let state = started(timeout_secs, arrivals.drop_last())->Read_0;
    let text = looked_at(state, arrivals.last()->Chunk_0);
    let json = document_in(text)->0;
    documents_are_reported_by_their_words(
        json,
        text_at(json.field("error"@)),
        text_at(nested_error(json)),
    );
}

/// A stream that is one JSON document in one chunk is refused if and only if the
/// document tells of a failure, and handed on with that chunk elsewhere.
pub proof fn one_document_in_one_chunk(timeout_secs: u64, text: Seq<char>)
    requires
        document_in(text) is Some,
    ensures
        ({
            let bytes = encode_utf8(text);
            let step = started(timeout_secs, seq![ArrivalView::Chunk(bytes)]);
            &&& step is Refuse <==> tells_of_failure(document_in(text)->0)
            &&& !tells_of_failure(document_in(text)->0) ==> step == StartStepView::Commit(
                seq![bytes],
                ReplayTail::Upstream,
            )
        }),
{
    let bytes = encode_utf8(text);
    let arrivals = seq![ArrivalView::Chunk(bytes)];
    let fresh = StreamStartView::fresh(timeout_secs);
    assert(arrivals.drop_last() =~= Seq::empty());
    assert(started(timeout_secs, arrivals.drop_last()) == StartStepView::Read(fresh));
    decoding_undoes_encoding(text);
    assert(fresh.remainder + bytes =~= bytes);
    assert(looked_at(fresh, bytes) =~= text);
    documents_decide_at_once(timeout_secs, arrivals);
    assert(chunks_in(arrivals.drop_last()) =~= Seq::empty());
    assert(chunks_in(arrivals) =~= seq![bytes]);
}

/// Whether two texts have the same characters as far as both go.
pub open spec fn agree(one: Seq<char>, other: Seq<char>) -> bool {
    forall|i: int| 0 <= i < one.len() && i < other.len() ==> #[trigger] one[i] == other[i]
}

/// Whether a text may go on as an event stream or as a document: but for white space
/// it is empty, agrees with a field's name as far as it goes, or opens a comment, an
/// object or an array.
pub open spec fn may_go_on(text: Seq<char>) -> bool {
    let t = trimmed_start(text);
    ||| t.len() == 0
    ||| t[0] == ':'
    ||| t[0] == '{'
    ||| t[0] == '['
    ||| agree(t, seq!['e', 'v', 'e', 'n', 't', ':'])
    ||| agree(t, seq!['d', 'a', 't', 'a', ':'])
    ||| agree(t, seq!['i', 'd', ':'])
    ||| agree(t, seq!['r', 'e', 't', 'r', 'y', ':'])
}

proof fn agreement_is_opening(s: Seq<char>, field: Seq<char>)
    ensures
        may_open(s, field) <==> agree(s, field),
{
    if agree(s, field) {
        if s.len() < field.len() {
            assert(s =~= field.subrange(0, s.len() as int));
        } else {
            assert(field =~= s.subrange(0, field.len() as int));
        }
    }
    if may_open(s, field) {
        if field.is_prefix_of(s) {
            assert forall|i: int| 0 <= i < s.len() && i < field.len() implies #[trigger] s[i]
                == field[i] by {
                assert(field[i] == s.subrange(0, field.len() as int)[i]);
            }
        } else {
            assert forall|i: int| 0 <= i < s.len() && i < field.len() implies #[trigger] s[i]
                == field[i] by {
                assert(s[i] == field.subrange(0, s.len() as int)[i]);
            }
        }
    }
}

proof fn going_on_is_unfinished(text: Seq<char>)
    ensures
        unfinished(text) <==> may_go_on(text),
{
    reveal_strlit("event:");
    reveal_strlit("data:");
    reveal_strlit("id:");
    reveal_strlit("retry:");
    reveal_strlit(":");
    let t = trimmed_start(text);
    assert("event:"@ =~= seq!['e', 'v', 'e', 'n', 't', ':']);
    assert("data:"@ =~= seq!['d', 'a', 't', 'a', ':']);
    assert("id:"@ =~= seq!['i', 'd', ':']);
    assert("retry:"@ =~= seq!['r', 'e', 't', 'r', 'y', ':']);
    agreement_is_opening(t, "event:"@);
    agreement_is_opening(t, "data:"@);
    agreement_is_opening(t, "id:"@);
    agreement_is_opening(t, "retry:"@);
    agreement_is_opening(t, ":"@);
    if t.len() > 0 && t[0] == ':' {
        assert(agree(t, ":"@));
    }
    if t.len() > 0 && agree(t, ":"@) {
        assert(t[0] == ":"@[0]);
    }
}

/// What is done once a chunk has come and the text is no document: the first complete
/// block that says something decides. Where there is none, the stream is read on as
/// long as what is left may go on, until 262144 bytes have come; anything else is
/// handed on at once.
pub proof fn blocks_decide_in_order(state: StreamStartView, bytes: Seq<u8>)
    requires
        document_in(looked_at(state, bytes)) is None,
    ensures
        ({
            let chunks = state.chunks.push(bytes);
            let left = past_silent_blocks(looked_at(state, bytes));
            let step = state.step(ArrivalView::Chunk(bytes));
            match first_block(left) {
                Some((block, _)) => match block_message(block) {
                    Some(message) => step == StartStepView::Refuse(
                        ProxyErrorView::TransformError(
                            "Upstream returned a 2xx semantic error: "@ + message,
                        ),
                    ),
                    None => step == StartStepView::Commit(chunks, ReplayTail::Upstream),
                },
                None => if !may_go_on(left) {
                    step == StartStepView::Commit(chunks, ReplayTail::Upstream)
                } else if total_len(chunks) >= 262144 {
                    step == StartStepView::Full(chunks, ReplayTail::Upstream)
                } else {
                    step == StartStepView::Read(
                        StreamStartView {
                            timeout_secs: state.timeout_secs,
                            chunks,
                            text: left,
                            remainder: undecoded(state.remainder + bytes),
                        },
                    )
                },
            }
        }),
{
    let text = looked_at(state, bytes);
    silent_blocks_change_nothing(text);
    going_on_is_unfinished(past_silent_blocks(text));
}

/// A block has data if and only if one of its lines is `data:`, with white space
/// before it and anything behind it.
pub proof fn data_lines_may_be_indented(block: Seq<char>)
    ensures
        has_data_line(block) <==> exists|i: int, front: Seq<char>, value: Seq<char>|
            0 <= i < lines_of(block).len() && blank(front) && #[trigger] lines_of(block)[i]
                == #[trigger] (front + "data:"@ + value),
{
    reveal_strlit("data:");
    let field = "data:"@;
    let lines = lines_of(block);
    if has_data_line(block) {
        let i = choose|i: int|
            0 <= i < lines.len() && "data:"@.is_prefix_of(trimmed_start(#[trigger] lines[i]));
        let line = lines[i];
        let t = trimmed_start(line);
        trimming_splits(line);
        let front = line.take(line.len() - t.len());
        let value = t.skip(5);
        assert(field =~= t.subrange(0, 5));
        assert(line =~= front + field + value) by {
            assert forall|k: int| 0 <= k < line.len() implies line[k] == (front + field
                + value)[k] by {
                if k >= front.len() {
                    assert(t[k - front.len()] == line[k]);
                    if k < front.len() + 5 {
                        assert(t.subrange(0, 5)[k - front.len()] == t[k - front.len()]);
                    }
                }
            }
        }
        assert(lines_of(block)[i] == front + field + value);
    }
    if exists|i: int, front: Seq<char>, value: Seq<char>|
        0 <= i < lines_of(block).len() && blank(front) && #[trigger] lines_of(block)[i]
            == #[trigger] (front + field + value) {
        let (i, front, value) = choose|i: int, front: Seq<char>, value: Seq<char>|
            0 <= i < lines_of(block).len() && blank(front) && #[trigger] lines_of(block)[i]
                == #[trigger] (front + field + value);
        let rest = field + value;
        assert(front + field + value =~= front + rest);
        front_is_trimmed_off(front, rest);
        assert("data:"@ =~= rest.subrange(0, 5));
        assert("data:"@.is_prefix_of(trimmed_start(lines[i])));
    }
}

proof fn front_is_trimmed_off(front: Seq<char>, s: Seq<char>)
    requires
        blank(front),
        s.len() > 0,
        !white_space(s[0]),
    ensures
        trimmed_start(front + s) == s,
    decreases front.len(),
{
    if front.len() > 0 {
        assert(white_space(front[0]));
        assert((front + s).drop_first() == front.drop_first() + s);
        front_is_trimmed_off(front.drop_first(), s);
    } else {
        assert(front + s == s);
    }
}

proof fn trimming_splits(s: Seq<char>)
    ensures
        trimmed_start(s).len() <= s.len(),
        trimmed_start(s) == s.skip(s.len() - trimmed_start(s).len()),
        blank(s.take(s.len() - trimmed_start(s).len())),
    decreases s.len(),
{
    if s.len() > 0 && white_space(s[0]) {
        trimming_splits(s.drop_first());
        let n = s.len() - trimmed_start(s).len();
        assert(s.drop_first().skip(n - 1) =~= s.skip(n));
        assert forall|i: int| 0 <= i < n implies white_space(#[trigger] s.take(n)[i]) by {
            if i > 0 {
                assert(s.drop_first().take(n - 1)[i - 1] == s[i]);
            }
        }
    } else {
        assert(s.skip(0) =~= s);
    }
}

/// At the end of a stream what is left, trimmed, is looked at as a body and then as an
/// event. Where neither is an error the stream is handed on with exactly the chunks
/// that were read and nothing behind them.
pub proof fn ends_are_looked_at_twice(state: StreamStartView)
    ensures
        ({
            let t = trimmed(state.text);
            let step = state.step(ArrivalView::Ended);
            &&& body_message(encode_utf8(t)) matches Some(message) ==> step
                == StartStepView::Refuse(
                ProxyErrorView::TransformError(
                    "Upstream returned a 2xx semantic error: "@ + message,
                ),
            )
            &&& body_message(encode_utf8(t)) is None ==> (block_message(t) matches Some(message)
                ==> step == StartStepView::Refuse(
                ProxyErrorView::TransformError(
                    "Upstream returned a 2xx semantic error: "@ + message,
                ),
            ))
            &&& body_message(encode_utf8(t)) is None && block_message(t) is None ==> step
                == StartStepView::Commit(state.chunks, ReplayTail::Nothing)
        }),
{
}

/// A stream that breaks is refused with the reason; one that is too slow is refused
/// with the whole seconds of its time limit, in decimal digits.
pub proof fn broken_and_slow_streams_are_refused(state: StreamStartView, reason: Seq<char>)
    ensures
        state.step(ArrivalView::Failed(reason)) == StartStepView::Refuse(
            ProxyErrorView::ForwardFailed(
                "Failed while validating semantic stream start: "@ + reason,
            ),
        ),
        exists|digits: Seq<char>|
            {
                &&& number_of(digits, 10) == state.timeout_secs
                &&& plain_decimal(digits)
                &&& state.step(ArrivalView::TimedOut) == StartStepView::Refuse(
                    ProxyErrorView::Timeout(
                        #[trigger] ("流式响应首个语义事件超时: "@ + digits + "s"@),
                    ),
                )
            },
{
    let digits = decimal(state.timeout_secs as nat);
    decimal_is_plain(state.timeout_secs as nat);
    assert(state.step(ArrivalView::TimedOut) == StartStepView::Refuse(
        ProxyErrorView::Timeout("流式响应首个语义事件超时: "@ + digits + "s"@),
    ));
}

/// The limits are fixed: a start of 256 KiB, a message of 512 characters, a window of
/// 200 milliseconds or five events, and five minutes in which failures count.
pub proof fn the_limits_are_fixed()
    ensures
        MAX_PRIME_BYTES == 256 * 1024,
        MAX_ERROR_MESSAGE_CHARS == 512,
        MAX_TIER_A_WINDOW == 200 * 1_000_000,
        MAX_TIER_A_EVENTS == 5,
        SEMANTIC_FAILURE_WINDOW == 5 * 60 * 1_000_000_000,
        NANOS_PER_SEC == 1_000_000_000,
{
}

} // verus!
