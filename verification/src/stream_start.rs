//! The start of a generic SSE response.
//!
//! A stream is primed until its first complete event, so that a clear initial
//! error event can take part in provider failover.

use vstd::prelude::*;
use vstd::slice::slice_subrange;
use vstd::utf8::encode_utf8;

use crate::json::{parse_json, parsed_json};
use crate::replay::{chunk_bytes, total_len, Arrival, ArrivalView, Replay, ReplayTail};
use crate::semantic_error::{
    block_error_message, block_message, body_message, json_error_message,
};
use crate::sse::{
    append_utf8_safe, block_len_bounds, decoded, first_block, take_sse_block, undecoded,
};
use crate::text::{
    append_decimal, append_str, chars_of, decimal, lines, lines_of, same, starts_with, string_of,
    texts, trim, trim_start, trimmed, trimmed_start,
};

verus! {

/// A stream that holds this many bytes and no event is committed as it is.
pub const MAX_PRIME_BYTES: usize = 262144;

/// Why a response is not handed on.
#[derive(Debug, PartialEq, Eq)]
pub enum ProxyError {
    Timeout(String),
    TransformError(String),
    ForwardFailed(String),
}

/// Why a response is not handed on.
pub enum ProxyErrorView {
    Timeout(Seq<char>),
    TransformError(Seq<char>),
    ForwardFailed(Seq<char>),
}

impl View for ProxyError {
    type V = ProxyErrorView;

    open spec fn view(&self) -> ProxyErrorView {
        match *self {
            ProxyError::Timeout(text) => ProxyErrorView::Timeout(text@),
            ProxyError::TransformError(text) => ProxyErrorView::TransformError(text@),
            ProxyError::ForwardFailed(text) => ProxyErrorView::ForwardFailed(text@),
        }
    }
}

/// The error for a provider's message behind a 2xx status.
pub open spec fn semantic_failure(message: Seq<char>) -> ProxyErrorView {
    ProxyErrorView::TransformError("Upstream returned a 2xx semantic error: "@ + message)
}

fn semantic_error(message: &str) -> (r: ProxyError)
    ensures
        r@ == semantic_failure(message@),
{
    let mut text: Vec<char> = chars_of("Upstream returned a 2xx semantic error: ");
    append_str(&mut text, message);
    ProxyError::TransformError(string_of(text.as_slice()))
}

/// What validating a 2xx response comes to: its body as it was received, or the error
/// for what it says without its content encoding.
pub open spec fn validated(raw: Seq<u8>, decoded: Option<Seq<u8>>) -> Result<
    Seq<u8>,
    ProxyErrorView,
> {
    match body_message(
        match decoded {
            Some(bytes) => bytes,
            None => raw,
        },
    ) {
        Some(message) => Err(semantic_failure(message)),
        None => Ok(raw),
    }
}

/// Validates the body of a 2xx response before provider success is recorded.
/// `decoded` is the body without its content encoding, where it has one that
/// could be undone. The body comes back as it was received.
pub fn validate_success_response(raw: Vec<u8>, decoded: Option<Vec<u8>>) -> (r: Result<
    Vec<u8>,
    ProxyError,
>)
    ensures
        match body_message(
            match decoded {
                Some(bytes) => bytes@,
                None => raw@,
            },
        ) {
            Some(message) => r matches Err(error) && error@ == semantic_failure(message),
            None => r == Ok::<Vec<u8>, ProxyError>(raw),
        },
        validated(
            raw@,
            match decoded {
                Some(bytes) => Some(bytes@),
                None => None,
            },
        ) == (match r {
            Ok(body) => Ok::<Seq<u8>, ProxyErrorView>(body@),
            Err(error) => Err::<Seq<u8>, ProxyErrorView>(error@),
        }),
{
    let message: Option<String> = match &decoded {
        Some(bytes) => json_error_message(bytes.as_slice()),
        None => json_error_message(raw.as_slice()),
    };
    match message {
        Some(message) => Err(semantic_error(message.as_str())),
        None => Ok(raw),
    }
}

/// What the text of a stream's start calls for.
#[verifier::ext_equal]
pub enum Priming {
    /// It tells of a failure, with this message.
    Refuse(Seq<char>),
    /// It may be handed on.
    Commit,
    /// More is needed. This text is left to look at.
    Wait(Seq<char>),
}

/// Whether a text starts like a JSON object or array.
pub open spec fn opens_json(s: Seq<char>) -> bool {
    s.len() > 0 && (s[0] == '{' || s[0] == '[')
}

/// Whether a block has a data line. Such a line may be indented here.
pub open spec fn has_data_line(block: Seq<char>) -> bool {
    exists|i: int|
        0 <= i < lines_of(block).len() && "data:"@.is_prefix_of(
            trimmed_start(#[trigger] lines_of(block)[i]),
        )
}

/// Whether a text and the name of a field agree as far as both go.
pub open spec fn may_open(s: Seq<char>, field: Seq<char>) -> bool {
    field.is_prefix_of(s) || s.is_prefix_of(field)
}

/// Whether a text shows, or may still show, the start of a line of an event
/// stream: a field or a comment.
pub open spec fn opens_event(s: Seq<char>) -> bool {
    ||| may_open(s, "event:"@)
    ||| may_open(s, "data:"@)
    ||| may_open(s, "id:"@)
    ||| may_open(s, "retry:"@)
    ||| may_open(s, ":"@)
}

/// Whether a text may still turn into an event or a JSON document: behind leading
/// white space nothing has come yet, or the start of one.
pub open spec fn unfinished(s: Seq<char>) -> bool {
    opens_event(trimmed_start(s)) || opens_json(trimmed_start(s))
}

/// What the complete blocks of a text call for: the first one that is an error or
/// has data decides. Where none does, what is left may still be unfinished.
pub open spec fn blocks_priming(s: Seq<char>) -> Priming
    decreases s.len(),
{
    proof {
        block_len_bounds(s);
    }
    match first_block(s) {
        Some((block, rest)) => match block_message(block) {
            Some(message) => Priming::Refuse(message),
            None => if has_data_line(block) {
                Priming::Commit
            } else {
                blocks_priming(rest)
            },
        },
        None => if unfinished(s) {
            Priming::Wait(s)
        } else {
            Priming::Commit
        },
    }
}

/// What a text calls for. A gateway may return one complete JSON document even
/// when the request asked for streaming; that is looked at first.
pub open spec fn priming(s: Seq<char>) -> Priming {
    let t = trimmed(s);
    if opens_json(t) && parsed_json(encode_utf8(t)) is Some {
        match body_message(encode_utf8(t)) {
            Some(message) => Priming::Refuse(message),
            None => Priming::Commit,
        }
    } else {
        blocks_priming(s)
    }
}

/// A stream whose start is being read.
pub struct StreamStart {
    timeout_secs: u64,
    chunks: Vec<Vec<u8>>,
    buffered: usize,
    text: Vec<char>,
    remainder: Vec<u8>,
}

/// A stream whose start is being read: the seconds that each read may take, the
/// chunks so far, the text that is left to look at, and the bytes of a character
/// that is not complete yet.
#[verifier::ext_equal]
pub struct StreamStartView {
    pub timeout_secs: u64,
    pub chunks: Seq<Seq<u8>>,
    pub text: Seq<char>,
    pub remainder: Seq<u8>,
}

impl View for StreamStart {
    type V = StreamStartView;

    closed spec fn view(&self) -> StreamStartView {
        StreamStartView {
            timeout_secs: self.timeout_secs,
            chunks: chunk_bytes(self.chunks@),
            text: self.text@,
            remainder: self.remainder@,
        }
    }
}

impl StreamStartView {
    /// The state before anything has come.
    pub open spec fn fresh(timeout_secs: u64) -> StreamStartView {
        StreamStartView {
            timeout_secs,
            chunks: seq![],
            text: seq![],
            remainder: seq![],
        }
    }

    /// The text to look at once a chunk has come.
    pub open spec fn text_with(self, bytes: Seq<u8>) -> Seq<char> {
        self.text + decoded(self.remainder + bytes)
    }

    /// What is done once a chunk has come.
    pub open spec fn on_chunk(self, bytes: Seq<u8>) -> StartStepView {
        let chunks = self.chunks.push(bytes);
        match priming(self.text_with(bytes)) {
            Priming::Refuse(message) => StartStepView::Refuse(semantic_failure(message)),
            Priming::Commit => StartStepView::Commit(chunks, ReplayTail::Upstream),
            Priming::Wait(text) => if total_len(chunks) >= MAX_PRIME_BYTES {
                StartStepView::Full(chunks, ReplayTail::Upstream)
            } else {
                StartStepView::Read(
                    StreamStartView {
                        chunks,
                        text,
                        remainder: undecoded(self.remainder + bytes),
                        ..self
                    },
                )
            },
        }
    }

    /// What is done once the stream is at its end.
    pub open spec fn on_end(self) -> StartStepView {
        let t = trimmed(self.text);
        match body_message(encode_utf8(t)) {
            Some(message) => StartStepView::Refuse(semantic_failure(message)),
            None => match block_message(t) {
                Some(message) => StartStepView::Refuse(semantic_failure(message)),
                None => StartStepView::Commit(self.chunks, ReplayTail::Nothing),
            },
        }
    }

    /// What is done about an arrival.
    pub open spec fn step(self, arrival: ArrivalView) -> StartStepView {
        match arrival {
            ArrivalView::Chunk(bytes) => self.on_chunk(bytes),
            ArrivalView::Ended => self.on_end(),
            ArrivalView::Failed(reason) => StartStepView::Refuse(
                ProxyErrorView::ForwardFailed(
                    "Failed while validating semantic stream start: "@ + reason,
                ),
            ),
            ArrivalView::TimedOut => StartStepView::Refuse(
                ProxyErrorView::Timeout(
                    "流式响应首个语义事件超时: "@ + decimal(self.timeout_secs as nat) + "s"@,
                ),
            ),
        }
    }
}

/// What is done about an arrival.
pub enum StartStep {
    /// The stream is read on.
    Read(StreamStart),
    /// `MAX_PRIME_BYTES` bytes have come and no event; the response is handed on.
    Full(Replay),
    /// The response is handed on, or not.
    Done(Result<Replay, ProxyError>),
}

/// What is done about an arrival: the stream is read on, the response is handed
/// on with these chunks first, at the limit or as its start calls for it, or it is
/// refused.
#[verifier::ext_equal]
pub enum StartStepView {
    Read(StreamStartView),
    Full(Seq<Seq<u8>>, ReplayTail),
    Commit(Seq<Seq<u8>>, ReplayTail),
    Refuse(ProxyErrorView),
}

impl View for StartStep {
    type V = StartStepView;

    open spec fn view(&self) -> StartStepView {
        match *self {
            StartStep::Read(state) => StartStepView::Read(state@),
            StartStep::Full(replay) => StartStepView::Full(
                chunk_bytes(replay.chunks@),
                replay.tail,
            ),
            StartStep::Done(Ok(replay)) => StartStepView::Commit(
                chunk_bytes(replay.chunks@),
                replay.tail,
            ),
            StartStep::Done(Err(error)) => StartStepView::Refuse(error@),
        }
    }
}

fn opens_with_brace(s: &[char]) -> (r: bool)
    ensures
        r == opens_json(s@),
{
    s.len() > 0 && (s[0] == '{' || s[0] == '[')
}

fn block_has_data_line(block: &[char]) -> (r: bool)
    ensures
        r == has_data_line(block@),
{
    let all: Vec<Vec<char>> = lines(block);
    let n: usize = all.len();
    for i in 0..n
        invariant
            n == all@.len(),
            texts(all@) == lines_of(block@),
            forall|j: int|
                0 <= j < i ==> !"data:"@.is_prefix_of(
                    trimmed_start(#[trigger] lines_of(block@)[j]),
                ),
    {
        assert(lines_of(block@)[i as int] == all@[i as int]@);
        if starts_with(trim_start(all[i].as_slice()), "data:") {
            return true;
        }
    }
    false
}

/// Whether a slice and the name of a field agree as far as both go.
fn opens_field(s: &[char], field: &str) -> (r: bool)
    ensures
        r == may_open(s@, field@),
{
    let name: Vec<char> = chars_of(field);
    if s.len() < name.len() {
        same(s, slice_subrange(name.as_slice(), 0, s.len()))
    } else {
        starts_with(s, field)
    }
}

fn is_unfinished(s: &[char]) -> (r: bool)
    ensures
        r == unfinished(s@),
{
    let t: &[char] = trim_start(s);
    opens_field(t, "event:") || opens_field(t, "data:") || opens_field(t, "id:") || opens_field(
        t,
        "retry:",
    ) || opens_field(t, ":") || opens_with_brace(t)
}

/// What the text of a stream's start calls for.
enum Primed {
    Refuse(String),
    Commit,
    Wait,
}

/// Looks at the text of a stream's start. Where more is needed, the blocks that
/// said nothing are gone from it.
fn prime(text: &mut Vec<char>) -> (r: Primed)
    ensures
        match r {
            Primed::Refuse(message) => priming(old(text)@) == Priming::Refuse(message@),
            Primed::Commit => priming(old(text)@) == Priming::Commit,
            Primed::Wait => priming(old(text)@) == Priming::Wait(final(text)@),
        },
{
    let t: &[char] = trim(text.as_slice());
    if opens_with_brace(t) {
        let document: String = string_of(t);
        if parse_json(document.as_str().as_bytes()).is_some() {
            return match json_error_message(document.as_str().as_bytes()) {
                Some(message) => Primed::Refuse(message),
                None => Primed::Commit,
            };
        }
    }
    assert(priming(text@) == blocks_priming(text@));
    loop
        invariant
            priming(old(text)@) == blocks_priming(text@),
        decreases text@.len(),
    {
        proof {
            block_len_bounds(text@);
        }
        match take_sse_block(text) {
            Some(block) => {
                if let Some(message) = block_error_message(block.as_slice()) {
                    return Primed::Refuse(message);
                }
                if block_has_data_line(block.as_slice()) {
                    return Primed::Commit;
                }
            },
            None => {
                if is_unfinished(text.as_slice()) {
                    return Primed::Wait;
                }
                return Primed::Commit;
            },
        }
    }
}

/// Whether a stream is read ahead at all: there is a time limit.
pub open spec fn reads_ahead(timeout_secs: u64, timeout_subsec_nanos: u32) -> bool {
    timeout_secs > 0 || timeout_subsec_nanos > 0
}

impl StreamStart {
    /// The bytes so far are counted, and they are fewer than what a stream is
    /// handed on at.
    #[verifier::type_invariant]
    spec fn counted(self) -> bool {
        &&& self.buffered == total_len(chunk_bytes(self.chunks@))
        &&& self.buffered < MAX_PRIME_BYTES
    }

    /// Starts to read a stream, each read within the given time. Without a limit
    /// nothing is read ahead: a gateway may never send an SSE delimiter.
    pub fn begin(timeout_secs: u64, timeout_subsec_nanos: u32) -> (r: Option<StreamStart>)
        ensures
            match r {
                Some(state) => (timeout_secs > 0 || timeout_subsec_nanos > 0) && state@
                    == StreamStartView::fresh(timeout_secs),
                None => timeout_secs == 0 && timeout_subsec_nanos == 0,
            },
            r is Some <==> reads_ahead(timeout_secs, timeout_subsec_nanos),
    {
        if timeout_secs == 0 && timeout_subsec_nanos == 0 {
            return None;
        }
        let state = StreamStart {
            timeout_secs,
            chunks: Vec::new(),
            buffered: 0,
            text: Vec::new(),
            remainder: Vec::new(),
        };
        assert(state@ =~= StreamStartView::fresh(timeout_secs));
        Some(state)
    }

    /// Decides what is done about what reading the stream came to.
    pub fn on_arrival(self, arrival: Arrival) -> (r: StartStep)
        ensures
            r@ == self@.step(arrival@),
    {
        proof {
            use_type_invariant(&self);
        }
        let ghost before = self@;
        let timeout_secs: u64 = self.timeout_secs;
        let buffered: usize = self.buffered;
        let mut chunks: Vec<Vec<u8>> = self.chunks;
        let mut text: Vec<char> = self.text;
        let mut remainder: Vec<u8> = self.remainder;
        match arrival {
            Arrival::Chunk(bytes) => {
                append_utf8_safe(&mut text, &mut remainder, bytes.as_slice());
                let room: usize = MAX_PRIME_BYTES - buffered;
                let len: usize = bytes.len();
                let ghost all = before.chunks.push(bytes@);
                assert(all.drop_last() == before.chunks);
                chunks.push(bytes);
                assert(chunk_bytes(chunks@) =~= all);
                match prime(&mut text) {
                    Primed::Refuse(message) => StartStep::Done(
                        Err(semantic_error(message.as_str())),
                    ),
                    Primed::Commit => StartStep::Done(
                        Ok(Replay { chunks, tail: ReplayTail::Upstream }),
                    ),
                    Primed::Wait => {
                        if len >= room {
                            StartStep::Full(Replay { chunks, tail: ReplayTail::Upstream })
                        } else {
                            StartStep::Read(
                                StreamStart {
                                    timeout_secs,
                                    chunks,
                                    buffered: buffered + len,
                                    text,
                                    remainder,
                                },
                            )
                        }
                    },
                }
            },
            Arrival::Failed(reason) => {
                let mut message: Vec<char> = chars_of(
                    "Failed while validating semantic stream start: ",
                );
                append_str(&mut message, reason.as_str());
                StartStep::Done(Err(ProxyError::ForwardFailed(string_of(message.as_slice()))))
            },
            Arrival::Ended => {
                let t: &[char] = trim(text.as_slice());
                let document: String = string_of(t);
                if let Some(message) = json_error_message(document.as_str().as_bytes()) {
                    return StartStep::Done(Err(semantic_error(message.as_str())));
                }
                if let Some(message) = block_error_message(t) {
                    return StartStep::Done(Err(semantic_error(message.as_str())));
                }
                StartStep::Done(Ok(Replay { chunks, tail: ReplayTail::Nothing }))
            },
            Arrival::TimedOut => {
                let mut message: Vec<char> = chars_of("流式响应首个语义事件超时: ");
                append_decimal(&mut message, timeout_secs);
                append_str(&mut message, "s");
                StartStep::Done(Err(ProxyError::Timeout(string_of(message.as_slice()))))
            },
        }
    }
}

} // verus!
