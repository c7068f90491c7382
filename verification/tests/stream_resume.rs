//! The reconnecting block-range stream: duplicates, resume points,
//! retry budget.

use shielded_sync::SyncError;
use shielded_sync::compact::CompactBlock;
use shielded_sync::stream::{BlockBatcher, BlockEvent, BlockRangeStream, ResumeAction};

fn tiny_block(height: u64) -> CompactBlock {
    CompactBlock { height, vtx: vec![] }
}

#[test]
fn accepts_exactly_the_contiguous_range() {
    let mut s = BlockRangeStream::open(100, 105, 3, 10).unwrap();
    for h in 100..105u64 {
        assert_eq!(s.on_block(h), BlockEvent::Accept);
    }
    assert!(s.done());
    assert_eq!(s.on_disconnect(), ResumeAction::Finished);
}

#[test]
fn duplicates_across_reconnect_are_suppressed() {
    let mut s = BlockRangeStream::open(100, 110, 3, 10).unwrap();
    for h in 100..104u64 {
        assert_eq!(s.on_block(h), BlockEvent::Accept);
    }
    // the transport dies mid-range; the stream resumes at the first
    // undelivered height
    match s.on_disconnect() {
        ResumeAction::Reopen { start, delay_ms } => {
            assert_eq!(start, 104);
            assert_eq!(delay_ms, 10);
        },
        other => panic!("expected a reopen, got {:?}", other),
    }
    // the server replays already-delivered blocks: all suppressed
    assert_eq!(s.on_block(102), BlockEvent::Duplicate);
    assert_eq!(s.on_block(103), BlockEvent::Duplicate);
    // delivery continues without gap or repetition
    for h in 104..110u64 {
        assert_eq!(s.on_block(h), BlockEvent::Accept);
    }
    assert!(s.done());
}

#[test]
fn backoff_doubles_and_budget_runs_out() {
    let mut s = BlockRangeStream::open(0, 10, 2, 7).unwrap();
    match s.on_disconnect() {
        ResumeAction::Reopen { start, delay_ms } => {
            assert_eq!(start, 0);
            assert_eq!(delay_ms, 7);
        },
        other => panic!("unexpected {:?}", other),
    }
    match s.on_disconnect() {
        ResumeAction::Reopen { start, delay_ms } => {
            assert_eq!(start, 0);
            assert_eq!(delay_ms, 14);
        },
        other => panic!("unexpected {:?}", other),
    }
    // budget exhausted: the run fails with a fatal transport error
    assert_eq!(s.on_disconnect(), ResumeAction::GiveUp);
}

#[test]
fn skipped_heights_break_the_stream() {
    let mut s = BlockRangeStream::open(100, 110, 3, 10).unwrap();
    assert_eq!(s.on_block(100), BlockEvent::Accept);
    // the server skips a height: this cannot be repaired locally
    assert_eq!(s.on_block(102), BlockEvent::Fatal);
}

#[test]
fn heights_past_the_range_are_fatal() {
    let mut s = BlockRangeStream::open(100, 102, 3, 10).unwrap();
    assert_eq!(s.on_block(100), BlockEvent::Accept);
    assert_eq!(s.on_block(101), BlockEvent::Accept);
    assert_eq!(s.on_block(102), BlockEvent::Fatal);
}

#[test]
fn inverted_range_is_refused() {
    assert_eq!(BlockRangeStream::open(10, 9, 3, 10).unwrap_err(), SyncError::ConfigInvalid);
}

#[test]
fn batcher_flushes_full_batches_in_order() {
    let mut b = BlockBatcher::new(3).unwrap();
    assert!(b.push(tiny_block(10)).is_none());
    assert!(b.push(tiny_block(11)).is_none());
    let first = b.push(tiny_block(12)).unwrap();
    assert_eq!(first.iter().map(|x| x.height).collect::<Vec<_>>(), vec![10, 11, 12]);
    assert!(b.push(tiny_block(13)).is_none());
    // the remainder comes out as the final, shorter batch
    let rest = b.flush();
    assert_eq!(rest.iter().map(|x| x.height).collect::<Vec<_>>(), vec![13]);
    assert!(b.flush().is_empty());
}

#[test]
fn batcher_of_size_one_flushes_every_block() {
    let mut b = BlockBatcher::new(1).unwrap();
    assert_eq!(b.push(tiny_block(5)).unwrap().len(), 1);
    assert_eq!(b.push(tiny_block(6)).unwrap().len(), 1);
    assert!(b.flush().is_empty());
}

#[test]
fn batcher_needs_a_positive_size() {
    assert_eq!(BlockBatcher::new(0).unwrap_err(), SyncError::ConfigInvalid);
}
