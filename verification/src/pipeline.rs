//! The chunk streaming pipeline's data: a finite, ordered, single-pass
//! chunk stream with one-element lookahead, and the cooperative abort
//! signal polled at the pipeline's checkpoints.
use vstd::prelude::*;

use crate::datastore::Chunk;

verus! {

/// What the one-element lookahead of the stream shows.
#[derive(Clone, Copy, Debug, Eq, PartialEq, Structural)]
pub enum PeekState {
    /// A chunk is pending.
    Pending,
    /// The stream ended after delivering every chunk.
    Exhausted,
    /// The reader failed; no further chunk will come.
    ReadError,
}

/// A snapshot's chunk stream, read in order by a dedicated reader: the
/// chunks it will deliver, the point at which the reader fails (if it
/// does), and the position of the next undelivered chunk. The position
/// survives medium rotation.
#[derive(Clone, Debug)]
pub struct ChunkStream {
    /// The chunks of the snapshot, in stream order.
    pub chunks: Vec<Chunk>,
    /// If set, the reader fails instead of delivering the chunk at this
    /// position.
    pub error_at: Option<usize>,
    /// Position of the next chunk to deliver.
    pub pos: usize,
}

impl ChunkStream {
    /// How many chunks the reader actually delivers.
    pub open spec fn spec_available(&self) -> int {
        match self.error_at {
            Some(e) => if e < self.chunks@.len() {
                e as int
            } else {
                self.chunks@.len() as int
            },
            None => self.chunks@.len() as int,
        }
    }

    /// The reader fails after its last delivered chunk.
    pub open spec fn spec_has_error(&self) -> bool {
        self.error_at matches Some(e) && e < self.chunks@.len()
    }

    pub open spec fn wf(&self) -> bool {
        self.pos <= self.spec_available()
    }

    /// A fresh stream positioned at its first chunk.
    pub fn new(chunks: Vec<Chunk>, error_at: Option<usize>) -> (r: ChunkStream)
        ensures
            r.chunks == chunks,
            r.error_at == error_at,
            r.pos == 0,
            r.wf(),
    {
        ChunkStream { chunks, error_at, pos: 0 }
    }

    /// The lookahead: whether a chunk is pending, the stream is exhausted,
    /// or the reader failed, without consuming anything.
    pub fn peek(&self) -> (r: PeekState)
        requires
            self.wf(),
        ensures
            r == PeekState::Pending <==> self.pos < self.spec_available(),
            r == PeekState::ReadError <==> (self.pos == self.spec_available()
                && self.spec_has_error()),
            r == PeekState::Exhausted <==> (self.pos == self.spec_available()
                && !self.spec_has_error()),
    {
        let n = self.chunks.len();
        let avail: usize = match self.error_at {
            Some(e) => if e < n {
                e
            } else {
                n
            },
            None => n,
        };
        if self.pos < avail {
            PeekState::Pending
        } else {
            match self.error_at {
                Some(e) if e < n => PeekState::ReadError,
                _ => PeekState::Exhausted,
            }
        }
    }
}

/// The cooperative cancellation token, polled at every checkpoint. It is
/// modeled as a countdown: the signal is clear for a fixed number of polls
/// and raised on every poll after that; a token with no count never fires.
#[derive(Clone, Copy, Debug, Eq, PartialEq, Structural)]
pub struct AbortSignal {
    /// How many more polls stay clear; `None` never fires.
    pub remaining: Option<u64>,
}

impl AbortSignal {
    /// A token that never fires.
    pub fn never() -> (r: AbortSignal)
        ensures
            r.remaining is None,
    {
        AbortSignal { remaining: None }
    }

    /// A token that stays clear for `polls` checks and fires after that.
    pub fn after(polls: u64) -> (r: AbortSignal)
        ensures
            r.remaining == Some(polls),
    {
        AbortSignal { remaining: Some(polls) }
    }

    /// The signal is raised now: no clear polls remain.
    pub open spec fn spec_fired(&self) -> bool {
        self.remaining == Some(0u64)
    }

    /// Polls the signal once. Once raised, it stays raised.
    pub fn check(&mut self) -> (aborted: bool)
        ensures
            aborted == old(self).spec_fired(),
            old(self).remaining is None ==> *final(self) == *old(self),
            old(self).remaining == Some(0u64) ==> *final(self) == *old(self),
            (old(self).remaining matches Some(k) && k > 0) ==> final(self).remaining == Some(
                (old(self).remaining->Some_0 - 1) as u64,
            ),
    {
        match self.remaining {
            None => false,
            Some(k) => {
                if k == 0 {
                    true
                } else {
                    self.remaining = Some(k - 1);
                    false
                }
            },
        }
    }
}

} // verus!
