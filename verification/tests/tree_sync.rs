//! End-to-end tree synchronization against independently computed
//! roots, with the real pool hashes.

use incrementalmerkletree::frontier::Frontier;
use orchard::tree::MerkleHashOrchard;
use sapling_crypto::Node;

use shielded_sync::SyncError;
use shielded_sync::compact::{
    CompactBlock, CompactOrchardAction, CompactSaplingOutput, CompactTx,
};
use shielded_sync::frontier::{parse_frontier_v0, ParsedFrontier};
use shielded_sync::params::ShieldedPool;
use shielded_sync::session::SyncSession;
use shielded_sync::stream::{BlockEvent, BlockRangeStream, ResumeAction};
use shielded_sync::tree::{orchard_frontier_root, orchard_path_root, sapling_path_root};

fn scalar32(i: u8) -> Vec<u8> {
    let mut b = vec![0u8; 32];
    b[0] = i;
    b
}

fn action(i: u8) -> CompactOrchardAction {
    CompactOrchardAction::create(scalar32(i), scalar32(i), vec![i; 32], vec![i; 52])
}

fn output(i: u8) -> CompactSaplingOutput {
    CompactSaplingOutput::create(scalar32(i), vec![i; 32], vec![i; 52])
}

fn block(height: u64, n_outputs_and_actions: u8) -> CompactBlock {
    let outputs = (1..=n_outputs_and_actions).map(output).collect();
    let actions = (1..=n_outputs_and_actions).map(action).collect();
    let tx = CompactTx::create(0, vec![height as u8; 32], 0, vec![], outputs, actions);
    CompactBlock { height, vtx: vec![tx] }
}

/// The root an uninterrupted single-tree insertion of `leaves` yields,
/// computed with the pool-A primitives alone.
fn orchard_reference_root(leaves: &[Vec<u8>]) -> Vec<u8> {
    let mut f: Frontier<MerkleHashOrchard, 32> = Frontier::empty();
    for l in leaves {
        let arr: [u8; 32] = l.as_slice().try_into().unwrap();
        assert!(f.append(MerkleHashOrchard::from_bytes(&arr).unwrap()));
    }
    f.root().to_bytes().to_vec()
}

fn sapling_reference_root(leaves: &[Vec<u8>]) -> Vec<u8> {
    let mut f: Frontier<Node, 32> = Frontier::empty();
    for l in leaves {
        let arr: [u8; 32] = l.as_slice().try_into().unwrap();
        assert!(f.append(Node::from_bytes(arr).unwrap()));
    }
    f.root().to_bytes().to_vec()
}

fn new_session(pool: ShieldedPool, spam: u32, n_witnesses: u32) -> SyncSession {
    SyncSession::new(
        pool,
        spam,
        n_witnesses,
        99,
        &ParsedFrontier::Empty,
        &ParsedFrontier::Empty,
        &vec![],
        &vec![],
    )
    .unwrap()
}

fn leaves_of_blocks(blocks: &[CompactBlock]) -> Vec<Vec<u8>> {
    let mut out = Vec::new();
    for b in blocks {
        for tx in &b.vtx {
            for a in &tx.actions {
                out.push(a.cmx.clone());
            }
        }
    }
    out
}

#[test]
fn roots_match_reference_and_counts_add_up() {
    // ten blocks, no keys: zero hits, roots agree with an independent
    // computation, leaf count equals the sum of record counts
    let blocks: Vec<CompactBlock> = (100..110).map(|h| block(h, 3)).collect();
    let mut s = new_session(ShieldedPool::Both, u32::MAX, 0);
    let mut hits = 0u64;
    for chunk in blocks.chunks(4) {
        let out = s.process_batch(&chunk.to_vec()).unwrap();
        hits += out.orchard_hits.len() as u64 + out.sapling_hits.len() as u64;
    }
    assert_eq!(hits, 0);
    assert_eq!(s.orchard_next_position(), 30);
    assert_eq!(s.sapling_next_position(), 30);

    let action_leaves = leaves_of_blocks(&blocks);
    let expected_o = orchard_reference_root(&action_leaves);
    // outputs carry the same commitment bytes in this fixture
    let expected_s = sapling_reference_root(&action_leaves);
    let report = s.finalize(Some(&expected_o), Some(&expected_s)).unwrap();
    assert_eq!(report.total_actions, 30);
    assert_eq!(report.total_outputs, 30);
    // nothing was spam filtered, so the scan saw every record
    assert_eq!(report.total_scanned_actions, 30);
    assert_eq!(report.total_scanned_outputs, 30);
    assert_eq!(report.total_hits, 0);
    assert_eq!(report.orchard_root.unwrap(), expected_o);
    assert_eq!(report.sapling_root.unwrap(), expected_s);
}

#[test]
fn final_root_does_not_depend_on_batch_size() {
    let blocks: Vec<CompactBlock> = (200..212).map(|h| block(h, 2)).collect();
    let mut roots = Vec::new();
    for batch_size in [1usize, 3, 5, 12] {
        let mut s = new_session(ShieldedPool::Orchard, u32::MAX, 0);
        for chunk in blocks.chunks(batch_size) {
            s.process_batch(&chunk.to_vec()).unwrap();
        }
        let expected = orchard_reference_root(&leaves_of_blocks(&blocks));
        let report = s.finalize(Some(&expected), None).unwrap();
        roots.push(report.orchard_root.unwrap());
    }
    assert!(roots.windows(2).all(|w| w[0] == w[1]));
}

#[test]
fn spam_filter_never_reaches_the_tree() {
    // a spam transaction is skipped for decryption but its
    // commitments still enter the tree, or the root would diverge
    let mut spam_tx_block = block(300, 5);
    spam_tx_block.vtx[0].index = 0;
    let blocks = vec![spam_tx_block];
    let mut s = new_session(ShieldedPool::Orchard, 2, 0);
    let out = s.process_batch(&blocks).unwrap();
    assert_eq!(out.added_actions, 5);
    // the spam filter withholds the transaction from decryption only
    assert_eq!(out.scanned_actions, 0);
    let expected = orchard_reference_root(&leaves_of_blocks(&blocks));
    let report = s.finalize(Some(&expected), None).unwrap();
    assert_eq!(report.total_actions, 5);
    assert_eq!(report.total_scanned_actions, 0);
    assert_eq!(report.orchard_root.unwrap(), expected);
}

#[test]
fn diverging_root_is_reported_with_both_values() {
    let blocks = vec![block(400, 2)];
    let mut s = new_session(ShieldedPool::Orchard, u32::MAX, 0);
    s.process_batch(&blocks).unwrap();
    let good = orchard_reference_root(&leaves_of_blocks(&blocks));
    let wrong = vec![0x42; 32];
    match s.finalize(Some(&wrong), None).unwrap_err() {
        SyncError::RootMismatch { expected, actual } => {
            assert_eq!(expected, wrong);
            assert_eq!(actual, good);
        },
        other => panic!("expected a root mismatch, got {:?}", other),
    }
    // and with the right value the same session verifies
    assert!(s.finalize(Some(&good), None).is_ok());
}

#[test]
fn missing_server_root_is_unverifiable() {
    let mut s = new_session(ShieldedPool::Orchard, u32::MAX, 0);
    s.process_batch(&vec![block(500, 1)]).unwrap();
    assert_eq!(s.finalize(None, None).unwrap_err(), SyncError::RootUnverifiable);
}

#[test]
fn malformed_batch_leaves_no_partial_state() {
    let mut s = new_session(ShieldedPool::Orchard, u32::MAX, 0);
    let mut bad = block(600, 2);
    bad.vtx[0].actions[1].cmx = vec![0xff; 32];
    assert_eq!(s.process_batch(&vec![bad]).unwrap_err(), SyncError::MalformedCompactRecord);
    // the session is untouched: a clean batch afterwards yields
    // exactly the clean batch's root
    let good = vec![block(601, 2)];
    s.process_batch(&good).unwrap();
    let expected = orchard_reference_root(&leaves_of_blocks(&good));
    let report = s.finalize(Some(&expected), None).unwrap();
    assert_eq!(report.total_actions, 2);
    assert_eq!(report.orchard_root.unwrap(), expected);
}

#[test]
fn witness_hashes_back_to_the_root() {
    // mark the first leaf, extend, and check its authentication path
    let blocks: Vec<CompactBlock> = (700..705).map(|h| block(h, 2)).collect();
    let mut s = new_session(ShieldedPool::Orchard, u32::MAX, 1);
    for b in &blocks {
        s.process_batch(&vec![b.clone()]).unwrap();
    }
    let expected = orchard_reference_root(&leaves_of_blocks(&blocks));
    let path = s.orchard_witness(705, 0).unwrap();
    assert_eq!(path.len(), 32);
    let leaf: [u8; 32] = leaves_of_blocks(&blocks)[0].as_slice().try_into().unwrap();
    let rebuilt = orchard_path_root(&path, 0, &leaf).unwrap();
    assert_eq!(rebuilt, expected);
}

#[test]
fn sapling_witness_hashes_back_to_the_root() {
    let blocks: Vec<CompactBlock> = (710..714).map(|h| block(h, 2)).collect();
    let mut s = new_session(ShieldedPool::Sapling, u32::MAX, 1);
    for b in &blocks {
        s.process_batch(&vec![b.clone()]).unwrap();
    }
    let mut leaves: Vec<Vec<u8>> = Vec::new();
    for b in &blocks {
        for tx in &b.vtx {
            for o in &tx.outputs {
                leaves.push(o.cmu.clone());
            }
        }
    }
    let expected = sapling_reference_root(&leaves);
    let path = s.sapling_witness(714, 0).unwrap();
    assert_eq!(path.len(), 32);
    let leaf: [u8; 32] = leaves[0].as_slice().try_into().unwrap();
    let rebuilt = sapling_path_root(&path, 0, &leaf).unwrap();
    assert_eq!(rebuilt, expected);
}

#[test]
fn bootstrap_from_a_frontier_continues_the_tree() {
    // a chain with four leaves; the server hands the frontier after
    // the first leaf, and the engine ingests the remaining three
    let all_leaves: Vec<Vec<u8>> = (1..=4u8).map(scalar32).collect();
    let mut fb: Vec<u8> = Vec::new();
    fb.extend_from_slice(&0u64.to_le_bytes());
    fb.push(1);
    fb.extend_from_slice(&all_leaves[0]);
    fb.push(0);
    let pf = parse_frontier_v0(&fb, 32).unwrap();
    assert!(matches!(pf, ParsedFrontier::Present(_)));

    let mut s = SyncSession::new(
        ShieldedPool::Orchard,
        u32::MAX,
        0,
        99,
        &pf,
        &ParsedFrontier::Empty,
        &vec![],
        &vec![],
    )
    .unwrap();
    assert_eq!(s.orchard_next_position(), 1);

    let tx = CompactTx::create(
        0,
        vec![0x77; 32],
        0,
        vec![],
        vec![],
        (2..=4u8).map(action).collect(),
    );
    let blocks = vec![CompactBlock { height: 100, vtx: vec![tx] }];
    s.process_batch(&blocks).unwrap();
    assert_eq!(s.orchard_next_position(), 4);

    let expected = orchard_reference_root(&all_leaves);
    let report = s.finalize(Some(&expected), None).unwrap();
    assert_eq!(report.orchard_root.unwrap(), expected);
}

#[test]
fn frontier_round_trips_through_the_reference_type() {
    // the parsed frontier and the outside crate's frontier agree on
    // the ommer-count law: a frontier built by appending leaves
    // reproduces the same root when re-installed from its parts
    let leaves: Vec<Vec<u8>> = (1..=5u8).map(scalar32).collect();
    let mut f: Frontier<MerkleHashOrchard, 32> = Frontier::empty();
    for l in &leaves {
        let arr: [u8; 32] = l.as_slice().try_into().unwrap();
        f.append(MerkleHashOrchard::from_bytes(&arr).unwrap());
    }
    let nonempty = f.value().unwrap();
    let position: u64 = nonempty.position().into();
    assert_eq!(position, 4);
    let ommers: Vec<[u8; 32]> = nonempty.ommers().iter().map(|o| o.to_bytes()).collect();

    let mut fb: Vec<u8> = Vec::new();
    fb.extend_from_slice(&position.to_le_bytes());
    fb.push(1);
    fb.extend_from_slice(&nonempty.leaf().to_bytes());
    fb.push(ommers.len() as u8);
    for o in &ommers {
        fb.extend_from_slice(o);
    }
    let pf = parse_frontier_v0(&fb, 32).unwrap();
    let s = SyncSession::new(
        ShieldedPool::Orchard,
        u32::MAX,
        0,
        99,
        &pf,
        &ParsedFrontier::Empty,
        &vec![],
        &vec![],
    )
    .unwrap();
    let expected = orchard_reference_root(&leaves);
    let report = s.finalize(Some(&expected), None).unwrap();
    assert_eq!(report.orchard_root.unwrap(), expected);
    // and the root the library computes for the served frontier alone
    // is the same value
    assert_eq!(orchard_frontier_root(&pf).unwrap(), expected);
}

#[test]
fn server_frontier_root_verifies_a_full_run() {
    // the "server" reports the frontier at the top of the range; its
    // root, computed by the library, is what finalize checks against
    let blocks: Vec<CompactBlock> = (900..906).map(|h| block(h, 2)).collect();
    let leaves = leaves_of_blocks(&blocks);

    let mut f: Frontier<MerkleHashOrchard, 32> = Frontier::empty();
    for l in &leaves {
        let arr: [u8; 32] = l.as_slice().try_into().unwrap();
        f.append(MerkleHashOrchard::from_bytes(&arr).unwrap());
    }
    let nonempty = f.value().unwrap();
    let position: u64 = nonempty.position().into();
    let mut fb: Vec<u8> = Vec::new();
    fb.extend_from_slice(&position.to_le_bytes());
    fb.push(1);
    fb.extend_from_slice(&nonempty.leaf().to_bytes());
    fb.push(nonempty.ommers().len() as u8);
    for o in nonempty.ommers() {
        fb.extend_from_slice(&o.to_bytes());
    }
    let end_frontier = parse_frontier_v0(&fb, 32).unwrap();
    let expected = orchard_frontier_root(&end_frontier).unwrap();

    let mut s = new_session(ShieldedPool::Orchard, u32::MAX, 0);
    for chunk in blocks.chunks(2) {
        s.process_batch(&chunk.to_vec()).unwrap();
    }
    let report = s.finalize(Some(&expected), None).unwrap();
    assert_eq!(report.orchard_root.unwrap(), expected);
    assert_eq!(report.total_actions, leaves.len() as u64);
}

#[test]
fn reconnect_with_replays_preserves_root_and_counts() {
    // a transport fault mid-range, with the server replaying already
    // delivered blocks on reconnect: the accepted sequence, the leaf
    // count and the final root all equal the uninterrupted run's
    let blocks: Vec<CompactBlock> = (1000..1010).map(|h| block(h, 2)).collect();
    let expected = orchard_reference_root(&leaves_of_blocks(&blocks));

    let mut s = new_session(ShieldedPool::Orchard, u32::MAX, 0);
    let mut stream = BlockRangeStream::open(1000, 1010, 3, 10).unwrap();
    let mut pending: Vec<CompactBlock> = Vec::new();

    // first connection delivers four blocks, then dies
    for b in &blocks[..4] {
        assert_eq!(stream.on_block(b.height), BlockEvent::Accept);
        pending.push(b.clone());
    }
    let resume_at = match stream.on_disconnect() {
        ResumeAction::Reopen { start, .. } => start,
        other => panic!("expected a reopen, got {:?}", other),
    };
    assert_eq!(resume_at, 1004);

    // the second connection replays the last two blocks first
    for b in &blocks[2..] {
        match stream.on_block(b.height) {
            BlockEvent::Accept => pending.push(b.clone()),
            BlockEvent::Duplicate => (),
            BlockEvent::Fatal => panic!("stream broke"),
        }
    }
    assert!(stream.done());

    s.process_batch(&pending).unwrap();
    let report = s.finalize(Some(&expected), None).unwrap();
    assert_eq!(report.total_actions, 20);
    assert_eq!(report.orchard_root.unwrap(), expected);
}

#[test]
fn position_cursor_is_strictly_increasing() {
    let mut s = new_session(ShieldedPool::Both, u32::MAX, 0);
    let mut last = s.orchard_next_position();
    assert_eq!(last, 0);
    for h in 0..4u64 {
        let out = s.process_batch(&vec![block(800 + h, 2)]).unwrap();
        let now = s.orchard_next_position();
        assert_eq!(now, last + out.added_actions);
        assert!(now > last);
        last = now;
    }
}
