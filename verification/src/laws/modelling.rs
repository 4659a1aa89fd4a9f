//! What the views that contracts speak of hold of the values behind them.

use vstd::prelude::*;

use crate::json::{field_views_index, item_views_index, Json, JsonNumber, JsonView, NumberView};
use crate::laws::wording::joining_in_parts;
use crate::probe_stream::{ProbeOutcome, ProbeOutcomeView, ProbeStep, ProbeStepView};
use crate::replay::{chunk_bytes, Arrival, ArrivalView, Replay};
use crate::semantic_audit::{evidence_column, flag_column, string_texts};
use crate::semantic_detector::SemanticEvidence;
use crate::sse::{data_lines, event_name, SseEvent};
use crate::stream_start::{ProxyError, ProxyErrorView, StartStep, StartStepView};
use crate::text::{str_of, text_of, texts};

verus! {

/// The view of a document holds its kind and everything in it, in order.
pub proof fn documents_are_viewed_whole(json: Json)
    ensures
        match json {
            Json::Null => json@ == JsonView::Null,
            Json::Bool(b) => json@ == JsonView::Bool(b),
            Json::Number(JsonNumber::Unsigned(n)) => json@ == JsonView::Number(
                NumberView::Unsigned(n),
            ),
            Json::Number(JsonNumber::Negative(n)) => json@ == JsonView::Number(
                NumberView::Negative(n),
            ),
            Json::Number(JsonNumber::Other(text)) => json@ == JsonView::Number(
                NumberView::Other(text@),
            ),
            Json::String(s) => json@ == JsonView::String(s@),
            Json::Array(items) => json@ matches JsonView::Array(views) && views.len()
                == items@.len() && forall|i: int|
                0 <= i < items@.len() ==> #[trigger] views[i] == items@[i]@,
            Json::Object(fields) => json@ matches JsonView::Object(views) && views.len()
                == fields@.len() && forall|i: int|
                0 <= i < fields@.len() ==> #[trigger] views[i] == (fields@[i].0@, fields@[i].1@),
        },
{
    match json {
        Json::Array(items) => item_views_index(items@),
        Json::Object(fields) => field_views_index(fields@),
        _ => {},
    }
}

/// The views of chunks, texts and strings are those of each of them, in order.
pub proof fn sequences_are_viewed_whole(
    chunks: Seq<Vec<u8>>,
    parts: Seq<Vec<char>>,
    strings: Seq<String>,
    i: int,
)
    ensures
        chunk_bytes(chunks).len() == chunks.len(),
        texts(parts).len() == parts.len(),
        string_texts(strings).len() == strings.len(),
        0 <= i < chunks.len() ==> chunk_bytes(chunks)[i] == chunks[i]@,
        0 <= i < parts.len() ==> texts(parts)[i] == parts[i]@,
        0 <= i < strings.len() ==> string_texts(strings)[i] == strings[i]@,
{
}

/// An event is that of a block if and only if it has the name that the lines set, and
/// all of their data lines in order; an event without a name has an empty one.
pub proof fn events_are_read_whole(event: SseEvent, lines: Seq<Seq<char>>)
    ensures
        event.is_of(lines) <==> {
            &&& event.name is Some <==> event_name(lines) is Some
            &&& event.name is Some ==> event.name->0@ == event_name(lines)->0
            &&& event.data@.len() == data_lines(lines).len()
            &&& forall|i: int|
                0 <= i < event.data@.len() ==> (#[trigger] event.data@[i])@ == data_lines(lines)[i]
        },
        event.name is Some ==> event.name_text() == event.name->0@,
        event.name is None ==> event.name_text().len() == 0,
{
    let all = {
        &&& event.data@.len() == data_lines(lines).len()
        &&& forall|i: int|
            0 <= i < event.data@.len() ==> (#[trigger] event.data@[i])@ == data_lines(lines)[i]
    };
    if all {
        assert(texts(event.data@) =~= data_lines(lines));
    }
    if texts(event.data@) == data_lines(lines) {
        assert forall|i: int| 0 <= i < event.data@.len() implies (#[trigger] event.data@[i])@
            == data_lines(lines)[i] by {
            assert(texts(event.data@)[i] == event.data@[i]@);
        }
        assert(texts(event.data@).len() == event.data@.len());
    }
}

/// The column of evidence in two parts is the columns of both with a comma between
/// them, one part alone stands as it is, and flags are one and zero.
pub proof fn columns_hold_all_evidence(first: Seq<String>, second: Seq<String>, one: String)
    requires
        first.len() > 0,
        second.len() > 0,
    ensures
        evidence_column(first + second) == evidence_column(first).push(',') + evidence_column(
            second,
        ),
        evidence_column(seq![one]) == one@,
        evidence_column(Seq::empty()).len() == 0,
        flag_column(true) == 1,
        flag_column(false) == 0,
{
    reveal_strlit(",");
    let a = string_texts(first);
    let b = string_texts(second);
    assert(string_texts(first + second) =~= a + b);
    joining_in_parts(a, b, ","@);
    assert(evidence_column(first + second) =~= evidence_column(first).push(',')
        + evidence_column(second));
    assert(string_texts(seq![one]) =~= seq![one@]);
}

/// The views of what may be missing are missing where it is.
pub proof fn options_are_viewed_whole(s: &str, text: String)
    ensures
        str_of(Some(s)) == Some(s@),
        str_of(None) is None,
        text_of(Some(text)) == Some(text@),
        text_of(None) is None,
{
}

/// The views of what arrives, of outcomes, of steps and of errors hold all of it.
pub proof fn outcomes_are_viewed_whole(
    bytes: Vec<u8>,
    text: String,
    replay: Replay,
    detected: Option<SemanticEvidence>,
    evidence: Vec<SemanticEvidence>,
    request_id: Option<String>,
)
    ensures
        Arrival::Chunk(bytes)@ == ArrivalView::Chunk(bytes@),
        Arrival::Failed(text)@ == ArrivalView::Failed(text@),
        Arrival::Ended@ == ArrivalView::Ended,
        Arrival::TimedOut@ == ArrivalView::TimedOut,
        ProxyError::Timeout(text)@ == ProxyErrorView::Timeout(text@),
        ProxyError::TransformError(text)@ == ProxyErrorView::TransformError(text@),
        ProxyError::ForwardFailed(text)@ == ProxyErrorView::ForwardFailed(text@),
        ProbeStep::Done(ProbeOutcome::Pass { response: replay, detected, request_id })@
            == ProbeStepView::Done(
            ProbeOutcomeView::Pass {
                chunks: chunk_bytes(replay.chunks@),
                tail: replay.tail,
                detected,
                request_id: text_of(request_id),
            },
        ),
        ProbeStep::Done(ProbeOutcome::Degraded { response: replay, evidence, request_id })@
            == ProbeStepView::Done(
            ProbeOutcomeView::Degraded {
                chunks: chunk_bytes(replay.chunks@),
                tail: replay.tail,
                evidence: evidence@,
                request_id: text_of(request_id),
            },
        ),
        StartStep::Done(Ok(replay))@ == StartStepView::Commit(
            chunk_bytes(replay.chunks@),
            replay.tail,
        ),
        StartStep::Full(replay)@ == StartStepView::Full(chunk_bytes(replay.chunks@), replay.tail),
        StartStep::Done(Err(ProxyError::Timeout(text)))@ == StartStepView::Refuse(
            ProxyErrorView::Timeout(text@),
        ),
{
}

} // verus!
