//! Trial decryption: no false hits, deterministic reruns, and a real
//! hit round-tripped through the pool-A encryption primitive.

use orchard::keys::{FullViewingKey, Scope, SpendingKey};
use orchard::note::{ExtractedNoteCommitment, Note, NoteVersion, RandomSeed, Rho};
use orchard::note_encryption::OrchardDomain;
use orchard::value::NoteValue;
use zcash_note_encryption::{Domain, NoteEncryption};

use shielded_sync::compact::{CompactBlock, CompactOrchardAction, CompactSaplingOutput, CompactTx};
use shielded_sync::decrypt::{check_memo, dummy_ivk_orchard, dummy_ivk_sapling};
use shielded_sync::frontier::ParsedFrontier;
use shielded_sync::params::ShieldedPool;
use shielded_sync::session::SyncSession;

fn scalar32(i: u8) -> Vec<u8> {
    let mut b = vec![0u8; 32];
    b[0] = i;
    b
}

fn garbage_action(i: u8) -> CompactOrchardAction {
    CompactOrchardAction::create(scalar32(i), scalar32(i), vec![i; 32], vec![i; 52])
}

fn garbage_output(i: u8) -> CompactSaplingOutput {
    CompactSaplingOutput::create(scalar32(i), vec![i; 32], vec![i; 52])
}

/// A compact action that really encrypts a note to the returned
/// incoming viewing key.
fn encrypted_action_for_key() -> ([u8; 64], CompactOrchardAction) {
    let sk = SpendingKey::from_bytes([7u8; 32]).unwrap();
    let fvk = FullViewingKey::from(&sk);
    let ivk = fvk.to_ivk(Scope::External);
    let recipient = ivk.address_at(0u32);

    let nf_bytes = {
        let mut b = [0u8; 32];
        b[0] = 9;
        b
    };
    let rho = Option::<Rho>::from(Rho::from_bytes(&nf_bytes)).unwrap();
    let note = (0u8..32)
        .find_map(|i| {
            let rseed = Option::<RandomSeed>::from(RandomSeed::from_bytes([i; 32], &rho))?;
            Option::<Note>::from(Note::from_parts(
                recipient,
                NoteValue::from_raw(10),
                rho,
                rseed,
                NoteVersion::V2,
            ))
        })
        .expect("some random seed must yield a note");
    let cmx = ExtractedNoteCommitment::from(note.commitment());
    let enc: NoteEncryption<OrchardDomain> = NoteEncryption::new(None, note, [0u8; 512]);
    let full_ciphertext = enc.encrypt_note_plaintext();
    let epk = OrchardDomain::epk_bytes(enc.epk()).0;
    let compact = CompactOrchardAction::create(
        nf_bytes.to_vec(),
        cmx.to_bytes().to_vec(),
        epk.to_vec(),
        full_ciphertext[..52].to_vec(),
    );
    (ivk.to_bytes(), compact)
}

fn session_with_keys(keys: Vec<[u8; 64]>, spam: u32) -> SyncSession {
    SyncSession::new(
        ShieldedPool::Orchard,
        spam,
        0,
        99,
        &ParsedFrontier::Empty,
        &ParsedFrontier::Empty,
        &keys,
        &vec![],
    )
    .unwrap()
}

#[test]
fn placeholder_keys_are_valid_encodings() {
    let orchard_keys = dummy_ivk_orchard(3);
    assert!(orchard_keys.len() <= 3);
    assert!(!orchard_keys.is_empty());
    let seeds: Vec<[u8; 32]> = (1..=4u8).map(|i| [i; 32]).collect();
    let sapling_keys = dummy_ivk_sapling(&seeds);
    assert_eq!(sapling_keys.len(), 4);
}

#[test]
fn unrelated_records_never_hit() {
    let keys = dummy_ivk_orchard(2);
    let key_bytes: Vec<[u8; 64]> = keys.iter().map(|k| k.bytes).collect();
    let mut s = session_with_keys(key_bytes, u32::MAX);
    let tx = CompactTx::create(
        0,
        vec![0x55; 32],
        0,
        vec![],
        vec![],
        (1..=6u8).map(garbage_action).collect(),
    );
    let out = s.process_batch(&vec![CompactBlock { height: 10, vtx: vec![tx] }]).unwrap();
    assert_eq!(out.orchard_hits.len(), 0);
    assert_eq!(out.added_actions, 6);
    assert_eq!(out.scanned_actions, 6);
}

#[test]
fn a_note_encrypted_to_the_key_is_found_once_at_its_index() {
    let (ivk_bytes, hit_action) = encrypted_action_for_key();
    // the matching record sits between two unrelated ones, in a
    // transaction with a known hash
    let tx = CompactTx::create(
        0,
        vec![0x66; 32],
        0,
        vec![],
        vec![],
        vec![garbage_action(1), hit_action.clone(), garbage_action(2)],
    );
    let blocks = vec![CompactBlock { height: 20, vtx: vec![tx] }];
    let mut s = session_with_keys(vec![ivk_bytes], u32::MAX);
    let out = s.process_batch(&blocks).unwrap();
    assert_eq!(out.orchard_hits.len(), 1);
    assert_eq!(out.orchard_hits[0].index, 1);
    assert_eq!(out.orchard_hits[0].txid, vec![0x66; 32]);

    // re-running the same batch in a fresh session yields the same
    // hit at the same place
    let mut s2 = session_with_keys(vec![ivk_bytes], u32::MAX);
    let out2 = s2.process_batch(&blocks).unwrap();
    assert_eq!(out2.orchard_hits.len(), 1);
    assert_eq!(out2.orchard_hits[0].index, out.orchard_hits[0].index);
    assert_eq!(out2.orchard_hits[0].txid, out.orchard_hits[0].txid);
}

#[test]
fn spam_skip_withholds_hits_but_not_leaves() {
    let (ivk_bytes, hit_action) = encrypted_action_for_key();
    let tx = CompactTx::create(
        0,
        vec![0x77; 32],
        0,
        vec![],
        vec![],
        vec![garbage_action(1), hit_action, garbage_action(2)],
    );
    let blocks = vec![CompactBlock { height: 30, vtx: vec![tx] }];
    // spam limit 2 < 3 actions: the transaction is skipped for
    // decryption, yet all three commitments still enter the tree
    let mut s = session_with_keys(vec![ivk_bytes], 2);
    let out = s.process_batch(&blocks).unwrap();
    assert_eq!(out.orchard_hits.len(), 0);
    assert_eq!(out.added_actions, 3);
    assert_eq!(out.scanned_actions, 0);
}

#[test]
fn memo_outcomes_are_judged_per_hit() {
    // a full-size memo is recovered
    assert_eq!(check_memo(Some(vec![7u8; 512])).unwrap(), vec![7u8; 512]);
    // no decryption, or a short payload, is the per-hit failure
    assert_eq!(check_memo(None).unwrap_err(), shielded_sync::SyncError::MemoDecryptFailure);
    assert_eq!(
        check_memo(Some(vec![7u8; 511])).unwrap_err(),
        shielded_sync::SyncError::MemoDecryptFailure,
    );
}

#[test]
fn unparseable_key_is_refused_at_entry() {
    let r = SyncSession::new(
        ShieldedPool::Orchard,
        u32::MAX,
        0,
        99,
        &ParsedFrontier::Empty,
        &ParsedFrontier::Empty,
        &vec![[0u8; 64]],
        &vec![],
    );
    assert_eq!(r.err().unwrap(), shielded_sync::SyncError::ConfigInvalid);
}

#[test]
fn sapling_records_are_scanned_independently() {
    let seeds: Vec<[u8; 32]> = vec![[3u8; 32]];
    let sapling_keys = dummy_ivk_sapling(&seeds);
    let key_bytes: Vec<[u8; 32]> = sapling_keys.iter().map(|k| k.bytes).collect();
    let mut s = SyncSession::new(
        ShieldedPool::Sapling,
        u32::MAX,
        0,
        99,
        &ParsedFrontier::Empty,
        &ParsedFrontier::Empty,
        &vec![],
        &key_bytes,
    )
    .unwrap();
    let tx = CompactTx::create(
        0,
        vec![0x88; 32],
        0,
        vec![],
        (1..=3u8).map(garbage_output).collect(),
        vec![],
    );
    let out = s.process_batch(&vec![CompactBlock { height: 40, vtx: vec![tx] }]).unwrap();
    assert_eq!(out.sapling_hits.len(), 0);
    assert_eq!(out.added_outputs, 3);
    assert_eq!(out.added_actions, 0);
}
