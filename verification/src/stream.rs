//! The reconnecting block-range stream, as a state machine.
//!
//! The transport (an outside concern) yields compact blocks and
//! disconnects at arbitrary points; this component decides, for every
//! block and every disconnect, what to do, so that the concatenation of
//! all accepted blocks forms one contiguous, strictly increasing,
//! non-repeating sequence of heights covering `[start, end)` — however
//! often the transport fails. Blocks replayed across a reconnect are
//! suppressed as duplicates; transient failures are retried with
//! bounded exponential backoff until the budget is exhausted.

use vstd::prelude::*;

use crate::SyncError;
use crate::compact::CompactBlock;

verus! {

/// What to do with one block the transport yielded.
#[derive(Clone, Copy, Debug, PartialEq, Eq, Structural)]
pub enum BlockEvent {
    /// The block is the one expected next: consume it.
    Accept,
    /// The block was already delivered before a reconnect: drop it.
    Duplicate,
    /// The server skipped ahead or left the range: the stream is
    /// broken for good.
    Fatal,
}

/// What to do when the transport disconnects.
#[derive(Clone, Copy, Debug, PartialEq, Eq, Structural)]
pub enum ResumeAction {
    /// Every height of the range was delivered; the stream is done.
    Finished,
    /// Re-open the range starting at the first undelivered height,
    /// after the given delay.
    Reopen { start: u32, delay_ms: u32 },
    /// The retry budget is exhausted: fail with `TransportFatal`.
    GiveUp,
}

/// The state of one ranged block stream between transport events.
#[derive(Clone, Copy, Debug)]
pub struct BlockRangeStream {
    /// First height of the half-open range.
    pub start: u32,
    /// First height past the range.
    pub end: u32,
    /// The next height to accept; every height in `[start, next)` has
    /// been accepted exactly once.
    pub next: u32,
    /// How many more reconnects are allowed.
    pub retries_left: u32,
    /// Delay before the next reconnect; doubles on every reconnect.
    pub backoff_ms: u32,
    /// Set once the stream has failed for good.
    pub failed: bool,
}

impl BlockRangeStream {
    /// The state invariant: the cursor stays inside the range.
    pub open spec fn wf(self) -> bool {
        self.start <= self.next <= self.end
    }

    /// The heights accepted so far: exactly the contiguous range
    /// `[start, next)`, in increasing order. Every run, with however
    /// many reconnects and replays, delivers exactly this sequence.
    pub open spec fn spec_accepted(self) -> Seq<u64> {
        Seq::new((self.next - self.start) as nat, |i: int| (self.start + i) as u64)
    }

    /// Opens a stream over `[start, end)` with the given retry budget
    /// and initial backoff; an inverted range is refused.
    pub fn open(start: u32, end: u32, retry_budget: u32, initial_backoff_ms: u32) -> (r: Result<
        BlockRangeStream,
        SyncError,
    >)
        ensures
            r is Ok <==> start <= end,
            r matches Ok(s) ==> {
                &&& s.wf()
                &&& s.start == start
                &&& s.end == end
                &&& s.next == start
                &&& s.retries_left == retry_budget
                &&& s.backoff_ms == initial_backoff_ms
                &&& !s.failed
                &&& s.spec_accepted() == Seq::<u64>::empty()
            },
            r matches Err(e) ==> e is ConfigInvalid,
    {
        if start <= end {
            let s = BlockRangeStream {
                start,
                end,
                next: start,
                retries_left: retry_budget,
                backoff_ms: initial_backoff_ms,
                failed: false,
            };
            proof {
                assert(s.spec_accepted() =~= Seq::<u64>::empty());
            }
            Ok(s)
        } else {
            Err(SyncError::ConfigInvalid)
        }
    }

    /// Whether every height of the range has been accepted.
    pub fn done(&self) -> (r: bool)
        ensures
            r == (self.next == self.end),
    {
        self.next == self.end
    }

    /// Classifies one block the transport yielded, by height.
    ///
    /// Exactly the next undelivered height is accepted (advancing the
    /// cursor), heights already delivered are duplicates and change
    /// nothing, and anything else breaks the stream for good.
    pub fn on_block(&mut self, height: u64) -> (r: BlockEvent)
        requires
            old(self).wf(),
            !old(self).failed,
        ensures
            final(self).wf(),
            r == BlockEvent::Accept <==> height == old(self).next && old(self).next < old(
                self,
            ).end,
            r == BlockEvent::Duplicate <==> height < old(self).next,
            r == BlockEvent::Accept ==> {
                &&& *final(self) == (BlockRangeStream {
                    next: (old(self).next + 1) as u32,
                    ..*old(self)
                })
                &&& final(self).spec_accepted() == old(self).spec_accepted().push(height)
            },
            r == BlockEvent::Duplicate ==> *final(self) == *old(self),
            r == BlockEvent::Fatal ==> *final(self) == (BlockRangeStream {
                failed: true,
                ..*old(self)
            }),
    {
        if height < self.next as u64 {
            BlockEvent::Duplicate
        } else if height == self.next as u64 && self.next < self.end {
            let ghost pre = *self;
            self.next = self.next + 1;
            proof {
                assert(self.spec_accepted() =~= pre.spec_accepted().push(height));
            }
            BlockEvent::Accept
        } else {
            self.failed = true;
            BlockEvent::Fatal
        }
    }

    /// Decides what to do about a disconnect.
    ///
    /// A disconnect after the last height finishes the stream; within
    /// the range it costs one retry and asks for a re-open exactly at
    /// the first undelivered height (so nothing is skipped and nothing
    /// is fetched twice), with doubled backoff; with no retries left
    /// the stream fails for good.
    pub fn on_disconnect(&mut self) -> (r: ResumeAction)
        requires
            old(self).wf(),
            !old(self).failed,
        ensures
            final(self).wf(),
            r == ResumeAction::Finished <==> old(self).next == old(self).end,
            r matches ResumeAction::Reopen { start, delay_ms } ==> {
                &&& old(self).next < old(self).end
                &&& old(self).retries_left > 0
                &&& start == old(self).next
                &&& delay_ms == old(self).backoff_ms
                &&& final(self).retries_left == old(self).retries_left - 1
                &&& final(self).next == old(self).next
                &&& final(self).start == old(self).start
                &&& final(self).end == old(self).end
                &&& !final(self).failed
            },
            r == ResumeAction::GiveUp <==> old(self).next < old(self).end && old(
                self,
            ).retries_left == 0,
            r == ResumeAction::GiveUp ==> final(self).failed,
            final(self).spec_accepted() == old(self).spec_accepted(),
    {
        if self.next == self.end {
            ResumeAction::Finished
        } else if self.retries_left == 0 {
            self.failed = true;
            ResumeAction::GiveUp
        } else {
            self.retries_left = self.retries_left - 1;
            let delay = self.backoff_ms;
            if self.backoff_ms <= u32::MAX / 2 {
                self.backoff_ms = self.backoff_ms * 2;
            }
            ResumeAction::Reopen { start: self.next, delay_ms: delay }
        }
    }
}

/// Reconnection law: a stream that has reached its end has accepted
/// exactly the heights `start, start + 1, ..., end - 1`, each once, in
/// order — the same sequence an uninterrupted transport would have
/// produced, however many disconnects and replays occurred on the way.
pub proof fn lemma_stream_covers_range(s: BlockRangeStream)
    requires
        s.wf(),
        s.next == s.end,
    ensures
        s.spec_accepted().len() == s.end - s.start,
        forall|i: int| 0 <= i < s.spec_accepted().len() ==> s.spec_accepted()[i] == s.start + i,
{
}

/// Progress law: a stream never accepts a height twice and never skips
/// one; after any accepted block the accepted sequence is still the
/// contiguous prefix of the range.
pub proof fn lemma_stream_no_gaps_no_duplicates(s: BlockRangeStream)
    requires
        s.wf(),
    ensures
        forall|i: int, j: int|
            0 <= i < j < s.spec_accepted().len() ==> s.spec_accepted()[i] < s.spec_accepted()[j],
        forall|h: u64|
            s.spec_accepted().contains(h) <==> s.start <= h < s.next,
{
    assert forall|h: u64| s.spec_accepted().contains(h) <==> s.start <= h < s.next by {
        if s.start <= h < s.next {
            assert(s.spec_accepted()[h - s.start] == h);
        }
    }
}

/// Groups accepted blocks into batches of a target size, preserving
/// their order: blocks go in one at a time, a full batch comes out as
/// soon as the target is reached, and whatever remains at the end of
/// the range is flushed as the final, possibly shorter batch. The
/// concatenation of all batches is exactly the pushed sequence.
#[derive(Debug)]
pub struct BlockBatcher {
    target: u32,
    pending: Vec<CompactBlock>,
}

impl BlockBatcher {
    /// The blocks accumulated and not yet flushed.
    pub closed spec fn spec_pending(self) -> Seq<CompactBlock> {
        self.pending@
    }

    /// The batch size this batcher fills to.
    pub closed spec fn spec_target(self) -> nat {
        self.target as nat
    }

    /// Fewer blocks are pending than one full batch.
    pub closed spec fn wf(self) -> bool {
        &&& self.target >= 1
        &&& self.pending@.len() < self.target
    }

    /// A batcher for batches of `batch_size` blocks; a batch has at
    /// least one block.
    pub fn new(batch_size: u32) -> (r: Result<BlockBatcher, SyncError>)
        ensures
            r is Ok <==> batch_size >= 1,
            r matches Ok(b) ==> {
                &&& b.wf()
                &&& b.spec_target() == batch_size
                &&& b.spec_pending() == Seq::<CompactBlock>::empty()
            },
            r matches Err(e) ==> e is ConfigInvalid,
    {
        if batch_size >= 1 {
            Ok(BlockBatcher { target: batch_size, pending: Vec::new() })
        } else {
            Err(SyncError::ConfigInvalid)
        }
    }

    /// Accepts one block; returns the accumulated batch exactly when
    /// it reaches the target size.
    pub fn push(&mut self, block: CompactBlock) -> (r: Option<Vec<CompactBlock>>)
        requires
            old(self).wf(),
        ensures
            final(self).wf(),
            final(self).spec_target() == old(self).spec_target(),
            r matches Some(batch) ==> {
                &&& batch@ == old(self).spec_pending().push(block)
                &&& batch@.len() == old(self).spec_target()
                &&& final(self).spec_pending() == Seq::<CompactBlock>::empty()
            },
            r is None ==> final(self).spec_pending() == old(self).spec_pending().push(block),
            r is Some <==> old(self).spec_pending().len() + 1 == old(self).spec_target(),
    {
        self.pending.push(block);
        if self.pending.len() >= self.target as usize {
            let mut batch: Vec<CompactBlock> = Vec::new();
            core::mem::swap(&mut batch, &mut self.pending);
            Some(batch)
        } else {
            None
        }
    }

    /// Hands out whatever is pending; the final, possibly shorter
    /// batch at the end of a range.
    pub fn flush(&mut self) -> (r: Vec<CompactBlock>)
        requires
            old(self).wf(),
        ensures
            final(self).wf(),
            final(self).spec_target() == old(self).spec_target(),
            r@ == old(self).spec_pending(),
            final(self).spec_pending() == Seq::<CompactBlock>::empty(),
    {
        let mut batch: Vec<CompactBlock> = Vec::new();
        core::mem::swap(&mut batch, &mut self.pending);
        batch
    }
}

} // verus!
