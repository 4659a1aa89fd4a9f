//! Streams that are read ahead and replayed.
//!
//! A stream can be looked at before the client gets its first byte, as long as
//! every byte that was read is handed on ahead of the rest.

use vstd::prelude::*;

verus! {

/// What reading from the upstream stream came to.
pub enum Arrival {
    /// The next bytes.
    Chunk(Vec<u8>),
    /// The stream broke, for this reason.
    Failed(String),
    /// The stream is at its end.
    Ended,
    /// Nothing came in time.
    TimedOut,
}

/// What reading from the upstream stream came to.
pub enum ArrivalView {
    Chunk(Seq<u8>),
    Failed(Seq<char>),
    Ended,
    TimedOut,
}

impl View for Arrival {
    type V = ArrivalView;

    open spec fn view(&self) -> ArrivalView {
        match *self {
            Arrival::Chunk(bytes) => ArrivalView::Chunk(bytes@),
            Arrival::Failed(reason) => ArrivalView::Failed(reason@),
            Arrival::Ended => ArrivalView::Ended,
            Arrival::TimedOut => ArrivalView::TimedOut,
        }
    }
}

/// What follows the chunks of a replay.
#[derive(Debug, Clone, Copy, PartialEq, Eq, Structural)]
pub enum ReplayTail {
    /// What is left of the upstream stream.
    Upstream,
    /// The failure that reading ended with.
    Failure,
    /// Nothing.
    Nothing,
}

/// A response body that was read ahead: the chunks that were read, in order, and
/// what follows them.
#[derive(Debug)]
pub struct Replay {
    pub chunks: Vec<Vec<u8>>,
    pub tail: ReplayTail,
}

/// The bytes of each of a sequence of chunks.
pub open spec fn chunk_bytes(chunks: Seq<Vec<u8>>) -> Seq<Seq<u8>> {
    chunks.map_values(|chunk: Vec<u8>| chunk@)
}

/// How many bytes the chunks hold.
pub open spec fn total_len(chunks: Seq<Seq<u8>>) -> nat
    decreases chunks.len(),
{
    if chunks.len() == 0 {
        0
    } else {
        total_len(chunks.drop_last()) + chunks.last().len()
    }
}

} // verus!
