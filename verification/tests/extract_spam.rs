//! Batch extraction: canonical order, spam filtering, wire validation.

use shielded_sync::SyncError;
use shielded_sync::compact::{
    CompactBlock, CompactOrchardAction, CompactSaplingOutput, CompactTx,
};
use shielded_sync::params::ShieldedPool;
use shielded_sync::extract::extract_batch;

fn scalar32(i: u8) -> Vec<u8> {
    let mut b = vec![0u8; 32];
    b[0] = i;
    b
}

fn action(i: u8) -> CompactOrchardAction {
    CompactOrchardAction::create(scalar32(i), scalar32(i), vec![i; 32], vec![i; 52])
}

fn output(i: u8) -> CompactSaplingOutput {
    CompactSaplingOutput::create(scalar32(i), vec![i; 32], vec![i; 52])
}

fn tx(index: u64, hash_byte: u8, n_outputs: u8, n_actions: u8) -> CompactTx {
    let outputs = (1..=n_outputs).map(output).collect();
    let actions = (1..=n_actions).map(action).collect();
    CompactTx::create(index, vec![hash_byte; 32], 0, vec![], outputs, actions)
}

#[test]
fn extraction_keeps_canonical_order() {
    let blocks = vec![
        CompactBlock { height: 10, vtx: vec![tx(0, 0xa1, 1, 2), tx(1, 0xa2, 2, 0)] },
        CompactBlock { height: 11, vtx: vec![tx(0, 0xb1, 0, 1)] },
    ];
    let bc = extract_batch(&blocks, ShieldedPool::Both, u32::MAX).unwrap();
    assert_eq!(bc.actions.len(), 3);
    assert_eq!(bc.outputs.len(), 3);
    // actions: two from the first transaction, one from the last block
    assert_eq!(bc.action_txids[0], vec![0xa1; 32]);
    assert_eq!(bc.action_txids[1], vec![0xa1; 32]);
    assert_eq!(bc.action_txids[2], vec![0xb1; 32]);
    // outputs: one from the first transaction, two from the second
    assert_eq!(bc.output_txids[0], vec![0xa1; 32]);
    assert_eq!(bc.output_txids[1], vec![0xa2; 32]);
    assert_eq!(bc.output_txids[2], vec![0xa2; 32]);
    // record payloads survive unchanged
    assert_eq!(bc.actions[0].cmx, *scalar32(1).as_slice().first_chunk::<32>().unwrap());
    assert_eq!(bc.outputs[1].cmu[0], 1);
}

#[test]
fn spam_filter_skips_whole_transaction_per_pool() {
    // one transaction with three actions and one output
    let blocks = vec![CompactBlock { height: 5, vtx: vec![tx(0, 0xcc, 1, 3)] }];
    // a limit of 2 skips its actions but keeps its single output
    let bc = extract_batch(&blocks, ShieldedPool::Both, 2).unwrap();
    assert_eq!(bc.actions.len(), 0);
    assert_eq!(bc.outputs.len(), 1);
    // with no limit the same transaction contributes everything
    let all = extract_batch(&blocks, ShieldedPool::Both, u32::MAX).unwrap();
    assert_eq!(all.actions.len(), 3);
    assert_eq!(all.outputs.len(), 1);
}

#[test]
fn pools_are_judged_independently() {
    // three outputs, one action: limit 2 skips outputs only
    let blocks = vec![CompactBlock { height: 5, vtx: vec![tx(0, 0xdd, 3, 1)] }];
    let bc = extract_batch(&blocks, ShieldedPool::Both, 2).unwrap();
    assert_eq!(bc.outputs.len(), 0);
    assert_eq!(bc.actions.len(), 1);
}

#[test]
fn unscanned_pool_contributes_nothing() {
    let blocks = vec![CompactBlock { height: 5, vtx: vec![tx(0, 0xee, 2, 2)] }];
    let only_a = extract_batch(&blocks, ShieldedPool::Orchard, u32::MAX).unwrap();
    assert_eq!(only_a.actions.len(), 2);
    assert_eq!(only_a.outputs.len(), 0);
    let only_b = extract_batch(&blocks, ShieldedPool::Sapling, u32::MAX).unwrap();
    assert_eq!(only_b.actions.len(), 0);
    assert_eq!(only_b.outputs.len(), 2);
}

#[test]
fn malformed_record_aborts_batch() {
    // a truncated commitment
    let mut bad = tx(0, 0x11, 1, 1);
    bad.actions[0].cmx = vec![1, 2, 3];
    let blocks = vec![CompactBlock { height: 5, vtx: vec![bad] }];
    assert_eq!(
        extract_batch(&blocks, ShieldedPool::Both, u32::MAX).unwrap_err(),
        SyncError::MalformedCompactRecord,
    );
    // a non-canonical scalar: 32 bytes of 0xff exceed the field modulus
    let mut bad2 = tx(0, 0x12, 1, 0);
    bad2.outputs[0].cmu = vec![0xff; 32];
    let blocks2 = vec![CompactBlock { height: 6, vtx: vec![bad2] }];
    assert_eq!(
        extract_batch(&blocks2, ShieldedPool::Both, u32::MAX).unwrap_err(),
        SyncError::MalformedCompactRecord,
    );
    // the same malformed record inside a spam-skipped transaction still
    // aborts: the tree needs every commitment
    let mut bad3 = tx(0, 0x13, 0, 3);
    bad3.actions[2].nullifier = vec![0xff; 32];
    let blocks3 = vec![CompactBlock { height: 7, vtx: vec![bad3] }];
    assert_eq!(
        extract_batch(&blocks3, ShieldedPool::Orchard, u32::MAX).unwrap_err(),
        SyncError::MalformedCompactRecord,
    );
    // but a malformed record in a pool that is not scanned is invisible
    assert!(extract_batch(&blocks3, ShieldedPool::Sapling, u32::MAX).is_ok());
}

#[test]
fn record_checks_are_exact() {
    let good = action(1);
    assert!(good.check().is_ok());
    let mut short = action(1);
    short.ephemeral_key = vec![0; 31];
    assert_eq!(short.check().unwrap_err(), SyncError::MalformedCompactRecord);
    let mut long_ct = output(1);
    long_ct.ciphertext = vec![0; 53];
    assert_eq!(long_ct.check().unwrap_err(), SyncError::MalformedCompactRecord);
}
