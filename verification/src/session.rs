//! The per-run synchronization session: the computational core of the
//! orchestrator.
//!
//! A session owns the two pool trees and the viewing keys. The caller
//! (whatever drives the transport) feeds it batches of compact blocks
//! in height order; for each batch the session validates the records,
//! appends every commitment to the trees — the spam filter never
//! withholds a commitment from a tree, or the roots would diverge from
//! the server — runs trial decryption over the spam-filtered records,
//! and accounts for everything. At the end of the range the computed
//! roots are checked against the server's.

use vstd::prelude::*;

use crate::SyncError;
use crate::compact::{ActionView, CheckedAction, CheckedOutput, CompactBlock, OutputView};
use crate::decrypt::{
    batch_decrypt_compact_orchard, batch_decrypt_compact_sapling, hits_match, hits_match_views,
    DecryptHit, OrchardIvkBytes, SaplingIvkBytes, orchard_ivk_views, sapling_ivk_views,
    orchard_trial_matches, sapling_trial_matches,
};
use crate::extract::{
    batch_action_entries, batch_output_entries, block_views, check_batch, extract_batch_contents,
    lemma_action_count_monotone, lemma_batch_actions_valid_monotone,
    lemma_batch_outputs_valid_monotone, lemma_batching_invariance_actions,
    lemma_batching_invariance_outputs, lemma_output_count_monotone,
};
use crate::compact::BlockView;
use crate::frontier::ParsedFrontier;
use crate::params::ShieldedPool;
use crate::tree::{
    bootstrap_orchard_tree, bootstrap_sapling_tree, parsed_frontier_parts, LeafRetention,
    OrchardTreeState, SaplingTreeState, orchard_root_of, sapling_root_of,
};

verus! {

/// What one processed batch yielded: the decrypted hits per pool,
/// the number of commitments appended to each tree, and the number
/// of records the spam filter let through to trial decryption.
#[derive(Debug)]
pub struct BatchOutcome {
    pub orchard_hits: Vec<DecryptHit>,
    pub sapling_hits: Vec<DecryptHit>,
    pub added_actions: u64,
    pub added_outputs: u64,
    pub scanned_actions: u64,
    pub scanned_outputs: u64,
}

/// The final accounting of a run. The `total_actions` and
/// `total_outputs` counts are the commitments the trees received
/// (the spam filter does not withhold tree leaves); the scanned
/// counts are the records that reached trial decryption, after the
/// spam filter.
#[derive(Debug)]
pub struct SyncReport {
    pub total_actions: u64,
    pub total_outputs: u64,
    pub total_scanned_actions: u64,
    pub total_scanned_outputs: u64,
    pub total_hits: u64,
    pub orchard_root: Option<Vec<u8>>,
    pub sapling_root: Option<Vec<u8>>,
}

/// The pool-A commitments of a batch, as the tree receives them.
pub open spec fn action_entry_leaves(entries: Seq<(ActionView, Seq<u8>)>) -> Seq<Seq<u8>> {
    entries.map_values(|e: (ActionView, Seq<u8>)| e.0.cmx)
}

/// The pool-B commitments of a batch, as the tree receives them.
pub open spec fn output_entry_leaves(entries: Seq<(OutputView, Seq<u8>)>) -> Seq<Seq<u8>> {
    entries.map_values(|e: (OutputView, Seq<u8>)| e.0.cmu)
}

/// One synchronization run over a height range: trees, keys, spam
/// filter and counters.
pub struct SyncSession {
    pool: ShieldedPool,
    spam_filter_limit: u32,
    n_witnesses: u32,
    orchard_tree: OrchardTreeState,
    sapling_tree: SaplingTreeState,
    ivks_orchard: Vec<OrchardIvkBytes>,
    ivks_sapling: Vec<SaplingIvkBytes>,
    orchard_witnesses_tracked: u32,
    sapling_witnesses_tracked: u32,
    total_actions: u64,
    total_outputs: u64,
    total_scanned_actions: u64,
    total_scanned_outputs: u64,
    total_hits: u64,
}

impl SyncSession {
    /// Whether pool A is scanned.
    pub closed spec fn scan_orchard(self) -> bool {
        self.pool is Orchard || self.pool is Both
    }

    /// Whether pool B is scanned.
    pub closed spec fn scan_sapling(self) -> bool {
        self.pool is Sapling || self.pool is Both
    }

    /// The per-transaction spam filter limit for trial decryption.
    pub closed spec fn spec_spam_limit(self) -> nat {
        self.spam_filter_limit as nat
    }

    /// The frontier parts the pool-A tree was seeded with.
    pub closed spec fn orchard_frontier(self) -> Seq<Seq<u8>> {
        self.orchard_tree.frontier()
    }

    /// The commitments appended to the pool-A tree so far.
    pub closed spec fn orchard_leaves(self) -> Seq<Seq<u8>> {
        self.orchard_tree.leaves()
    }

    /// The position of the first appended pool-A leaf.
    pub closed spec fn orchard_base(self) -> nat {
        self.orchard_tree.spec_base()
    }

    /// The frontier parts the pool-B tree was seeded with.
    pub closed spec fn sapling_frontier(self) -> Seq<Seq<u8>> {
        self.sapling_tree.frontier()
    }

    /// The commitments appended to the pool-B tree so far.
    pub closed spec fn sapling_leaves(self) -> Seq<Seq<u8>> {
        self.sapling_tree.leaves()
    }

    /// The position of the first appended pool-B leaf.
    pub closed spec fn sapling_base(self) -> nat {
        self.sapling_tree.spec_base()
    }

    /// The raw encodings of the pool-A keys in use.
    pub closed spec fn orchard_keys(self) -> Seq<Seq<u8>> {
        orchard_ivk_views(self.ivks_orchard@)
    }

    /// The raw encodings of the pool-B keys in use.
    pub closed spec fn sapling_keys(self) -> Seq<Seq<u8>> {
        sapling_ivk_views(self.ivks_sapling@)
    }

    /// Pool-A commitments counted so far.
    pub closed spec fn spec_total_actions(self) -> nat {
        self.total_actions as nat
    }

    /// Pool-B commitments counted so far.
    pub closed spec fn spec_total_outputs(self) -> nat {
        self.total_outputs as nat
    }

    /// Pool-A records handed to trial decryption so far (after the
    /// spam filter).
    pub closed spec fn spec_total_scanned_actions(self) -> nat {
        self.total_scanned_actions as nat
    }

    /// Pool-B records handed to trial decryption so far.
    pub closed spec fn spec_total_scanned_outputs(self) -> nat {
        self.total_scanned_outputs as nat
    }

    /// Hits surfaced so far, both pools together.
    pub closed spec fn spec_total_hits(self) -> nat {
        self.total_hits as nat
    }

    /// The session invariant. Leaf count law: the action counter
    /// equals the number of leaves the pool-A tree received, however
    /// many witnesses were marked on the way, and likewise for pool B.
    pub closed spec fn wf(self) -> bool {
        &&& self.orchard_tree.wf()
        &&& self.sapling_tree.wf()
        &&& (forall|i: int|
            0 <= i < self.ivks_orchard@.len() ==> (#[trigger] self.ivks_orchard@[i]).valid())
        &&& (forall|i: int|
            0 <= i < self.ivks_sapling@.len() ==> (#[trigger] self.ivks_sapling@[i]).valid())
        &&& self.total_actions == self.orchard_tree.leaves().len()
        &&& self.total_outputs == self.sapling_tree.leaves().len()
        &&& self.total_scanned_actions <= self.total_actions
        &&& self.total_scanned_outputs <= self.total_outputs
        &&& self.total_hits <= self.total_actions + self.total_outputs
        &&& self.orchard_witnesses_tracked <= self.n_witnesses
        &&& self.sapling_witnesses_tracked <= self.n_witnesses
    }

    /// Opens a session: decodes no keys (the decoder is an outside
    /// concern, keys arrive as raw bytes and any unparseable key is
    /// `ConfigInvalid`), seeds both trees from the parsed frontiers
    /// under the bootstrap height, and zeroes the accounting.
    pub fn new(
        pool: ShieldedPool,
        spam_filter_limit: u32,
        n_witnesses: u32,
        checkpoint_height: u32,
        orchard_frontier: &ParsedFrontier,
        sapling_frontier: &ParsedFrontier,
        orchard_key_bytes: &Vec<[u8; 64]>,
        sapling_key_bytes: &Vec<[u8; 32]>,
    ) -> (r: Result<SyncSession, SyncError>)
        requires
            orchard_frontier.wf(32),
            sapling_frontier.wf(32),
        ensures
            r matches Ok(s) ==> {
                &&& s.wf()
                &&& s.scan_orchard() == (pool is Orchard || pool is Both)
                &&& s.scan_sapling() == (pool is Sapling || pool is Both)
                &&& s.spec_spam_limit() == spam_filter_limit as nat
                &&& s.orchard_frontier() == parsed_frontier_parts(*orchard_frontier)
                &&& s.sapling_frontier() == parsed_frontier_parts(*sapling_frontier)
                &&& s.orchard_base() == orchard_frontier.spec_next_position()
                &&& s.sapling_base() == sapling_frontier.spec_next_position()
                &&& s.orchard_leaves() == Seq::<Seq<u8>>::empty()
                &&& s.sapling_leaves() == Seq::<Seq<u8>>::empty()
                &&& s.spec_total_actions() == 0
                &&& s.spec_total_outputs() == 0
                &&& s.spec_total_scanned_actions() == 0
                &&& s.spec_total_scanned_outputs() == 0
                &&& s.spec_total_hits() == 0
                &&& s.orchard_keys() == orchard_key_bytes.deep_view()
                &&& s.sapling_keys() == sapling_key_bytes.deep_view()
            },
            r is Ok <==> ({
                &&& (forall|i: int|
                    0 <= i < orchard_key_bytes@.len() ==> crate::crypto::orchard_ivk_valid(
                        (#[trigger] orchard_key_bytes@[i])@,
                    ))
                &&& (forall|i: int|
                    0 <= i < sapling_key_bytes@.len() ==> crate::crypto::sapling_ivk_valid(
                        (#[trigger] sapling_key_bytes@[i])@,
                    ))
                &&& !(orchard_frontier matches ParsedFrontier::Present(fd)
                    && !crate::tree::orchard_frontier_hashes_canonical(fd@))
                &&& !(sapling_frontier matches ParsedFrontier::Present(fd)
                    && !crate::tree::sapling_frontier_hashes_canonical(fd@))
            }),
            r matches Err(e) ==> (e is ConfigInvalid || e is MissingFrontier),
            r matches Err(e) && e is ConfigInvalid <==> ((exists|i: int|
                0 <= i < orchard_key_bytes@.len() && !crate::crypto::orchard_ivk_valid(
                    (#[trigger] orchard_key_bytes@[i])@,
                )) || (exists|i: int|
                0 <= i < sapling_key_bytes@.len() && !crate::crypto::sapling_ivk_valid(
                    (#[trigger] sapling_key_bytes@[i])@,
                ))),
            r matches Err(e) && e is MissingFrontier ==> ((orchard_frontier matches
                ParsedFrontier::Present(fd)
                && !crate::tree::orchard_frontier_hashes_canonical(fd@)) || (
            sapling_frontier matches ParsedFrontier::Present(fd)
                && !crate::tree::sapling_frontier_hashes_canonical(fd@))),
    {
        let mut ivks_orchard: Vec<OrchardIvkBytes> = Vec::new();
        let mut i: usize = 0;
        while i < orchard_key_bytes.len()
            invariant
                i <= orchard_key_bytes@.len(),
                ivks_orchard@.len() == i,
                forall|k: int|
                    0 <= k < i ==> (#[trigger] ivks_orchard@[k]).valid() && ivks_orchard@[k].bytes
                        == orchard_key_bytes@[k],
            decreases orchard_key_bytes@.len() - i,
        {
            match OrchardIvkBytes::new(orchard_key_bytes[i]) {
                Some(k) => {
                    ivks_orchard.push(k);
                },
                None => {
                    proof {
                        assert(!crate::crypto::orchard_ivk_valid(
                            (orchard_key_bytes@[i as int])@,
                        ));
                    }
                    return Err(SyncError::ConfigInvalid);
                },
            }
            i = i + 1;
        }
        let mut ivks_sapling: Vec<SaplingIvkBytes> = Vec::new();
        let mut j: usize = 0;
        while j < sapling_key_bytes.len()
            invariant
                j <= sapling_key_bytes@.len(),
                ivks_sapling@.len() == j,
                forall|k: int|
                    0 <= k < j ==> (#[trigger] ivks_sapling@[k]).valid() && ivks_sapling@[k].bytes
                        == sapling_key_bytes@[k],
            decreases sapling_key_bytes@.len() - j,
        {
            match SaplingIvkBytes::new(sapling_key_bytes[j]) {
                Some(k) => {
                    ivks_sapling.push(k);
                },
                None => {
                    proof {
                        assert(!crate::crypto::sapling_ivk_valid(
                            (sapling_key_bytes@[j as int])@,
                        ));
                    }
                    return Err(SyncError::ConfigInvalid);
                },
            }
            j = j + 1;
        }
        proof {
            assert forall|k: int| 0 <= k < orchard_key_bytes@.len() implies
                crate::crypto::orchard_ivk_valid((#[trigger] orchard_key_bytes@[k])@) by {
                assert(ivks_orchard@[k].valid());
                assert(ivks_orchard@[k].bytes == orchard_key_bytes@[k]);
            }
            assert forall|k: int| 0 <= k < sapling_key_bytes@.len() implies
                crate::crypto::sapling_ivk_valid((#[trigger] sapling_key_bytes@[k])@) by {
                assert(ivks_sapling@[k].valid());
                assert(ivks_sapling@[k].bytes == sapling_key_bytes@[k]);
            }
        }
        let orchard_tree = bootstrap_orchard_tree(orchard_frontier, checkpoint_height)?;
        let sapling_tree = bootstrap_sapling_tree(sapling_frontier, checkpoint_height)?;
        let s = SyncSession {
            pool,
            spam_filter_limit,
            n_witnesses,
            orchard_tree,
            sapling_tree,
            ivks_orchard,
            ivks_sapling,
            orchard_witnesses_tracked: 0,
            sapling_witnesses_tracked: 0,
            total_actions: 0,
            total_outputs: 0,
            total_scanned_actions: 0,
            total_scanned_outputs: 0,
            total_hits: 0,
        };
        proof {
            assert(s.orchard_keys() =~= orchard_key_bytes.deep_view()) by {
                assert forall|k: int|
                    0 <= k < orchard_key_bytes@.len() implies s.orchard_keys()[k]
                    == orchard_key_bytes.deep_view()[k] by {
                    assert(s.orchard_keys()[k] == s.ivks_orchard@[k].bytes@);
                    assert(orchard_key_bytes.deep_view()[k] == orchard_key_bytes@[k].deep_view());
                    assert(orchard_key_bytes@[k].deep_view() =~= orchard_key_bytes@[k]@);
                }
            }
            assert(s.sapling_keys() =~= sapling_key_bytes.deep_view()) by {
                assert forall|k: int|
                    0 <= k < sapling_key_bytes@.len() implies s.sapling_keys()[k]
                    == sapling_key_bytes.deep_view()[k] by {
                    assert(s.sapling_keys()[k] == s.ivks_sapling@[k].bytes@);
                    assert(sapling_key_bytes.deep_view()[k] == sapling_key_bytes@[k].deep_view());
                    assert(sapling_key_bytes@[k].deep_view() =~= sapling_key_bytes@[k]@);
                }
            }
        }
        Ok(s)
    }

    /// Processes one batch of compact blocks.
    ///
    /// The whole batch is validated first — one malformed record in a
    /// scanned pool aborts the batch with `MalformedCompactRecord` and
    /// leaves the session untouched. Then, per scanned pool: every
    /// commitment of the batch (the spam filter does not apply to tree
    /// insertion) is appended to the tree in canonical order at the
    /// next free positions, with the first leaves marked while the
    /// witness budget lasts; and the spam-filtered records are
    /// trial-decrypted against the keys, yielding the batch's hits in
    /// batch order.
    pub fn process_batch(&mut self, blocks: &Vec<CompactBlock>) -> (r: Result<
        BatchOutcome,
        SyncError,
    >)
        requires
            old(self).wf(),
        ensures
            r is Ok <==> ({
                let bs = block_views(blocks@);
                &&& (old(self).scan_orchard() ==> crate::extract::batch_actions_valid(
                    bs,
                    u32::MAX as nat,
                ))
                &&& (old(self).scan_sapling() ==> crate::extract::batch_outputs_valid(
                    bs,
                    u32::MAX as nat,
                ))
                &&& (old(self).scan_orchard() ==> old(self).orchard_base() + old(
                    self,
                ).orchard_leaves().len() + batch_action_entries(bs, u32::MAX as nat).len()
                    <= 0x1_0000_0000)
                &&& (old(self).scan_sapling() ==> old(self).sapling_base() + old(
                    self,
                ).sapling_leaves().len() + batch_output_entries(bs, u32::MAX as nat).len()
                    <= 0x1_0000_0000)
            }),
            r matches Ok(out) ==> ({
                let bs = block_views(blocks@);
                let tree_a = batch_action_entries(bs, u32::MAX as nat);
                let tree_b = batch_output_entries(bs, u32::MAX as nat);
                let scan_a = batch_action_entries(bs, old(self).spec_spam_limit());
                let scan_b = batch_output_entries(bs, old(self).spec_spam_limit());
                &&& final(self).wf()
                &&& final(self).scan_orchard() == old(self).scan_orchard()
                &&& final(self).scan_sapling() == old(self).scan_sapling()
                &&& final(self).spec_spam_limit() == old(self).spec_spam_limit()
                &&& final(self).orchard_keys() == old(self).orchard_keys()
                &&& final(self).sapling_keys() == old(self).sapling_keys()
                &&& final(self).orchard_frontier() == old(self).orchard_frontier()
                &&& final(self).sapling_frontier() == old(self).sapling_frontier()
                &&& final(self).orchard_base() == old(self).orchard_base()
                &&& final(self).sapling_base() == old(self).sapling_base()
                &&& (old(self).scan_orchard() ==> final(self).orchard_leaves() == old(
                    self,
                ).orchard_leaves() + action_entry_leaves(tree_a))
                &&& (!old(self).scan_orchard() ==> final(self).orchard_leaves() == old(
                    self,
                ).orchard_leaves())
                &&& (old(self).scan_sapling() ==> final(self).sapling_leaves() == old(
                    self,
                ).sapling_leaves() + output_entry_leaves(tree_b))
                &&& (!old(self).scan_sapling() ==> final(self).sapling_leaves() == old(
                    self,
                ).sapling_leaves())
                &&& out.added_actions == (if old(self).scan_orchard() {
                    tree_a.len()
                } else {
                    0
                })
                &&& out.added_outputs == (if old(self).scan_sapling() {
                    tree_b.len()
                } else {
                    0
                })
                &&& final(self).spec_total_actions() == old(self).spec_total_actions()
                    + out.added_actions
                &&& final(self).spec_total_outputs() == old(self).spec_total_outputs()
                    + out.added_outputs
                &&& out.scanned_actions == (if old(self).scan_orchard() {
                    scan_a.len()
                } else {
                    0
                })
                &&& out.scanned_outputs == (if old(self).scan_sapling() {
                    scan_b.len()
                } else {
                    0
                })
                &&& final(self).spec_total_scanned_actions() == old(
                    self,
                ).spec_total_scanned_actions() + out.scanned_actions
                &&& final(self).spec_total_scanned_outputs() == old(
                    self,
                ).spec_total_scanned_outputs() + out.scanned_outputs
                &&& (old(self).orchard_keys().len() == 0 ==> out.orchard_hits@.len() == 0)
                &&& (old(self).sapling_keys().len() == 0 ==> out.sapling_hits@.len() == 0)
                &&& (old(self).scan_orchard() ==> hits_match_views(
                    out.orchard_hits@,
                    orchard_trial_matches(
                        old(self).orchard_keys(),
                        scan_a.map_values(|e: (ActionView, Seq<u8>)| e.0),
                    ),
                    scan_a.map_values(|e: (ActionView, Seq<u8>)| e.1),
                ))
                &&& (!old(self).scan_orchard() ==> out.orchard_hits@.len() == 0)
                &&& (old(self).scan_sapling() ==> hits_match_views(
                    out.sapling_hits@,
                    sapling_trial_matches(
                        old(self).sapling_keys(),
                        scan_b.map_values(|e: (OutputView, Seq<u8>)| e.0),
                    ),
                    scan_b.map_values(|e: (OutputView, Seq<u8>)| e.1),
                ))
                &&& (!old(self).scan_sapling() ==> out.sapling_hits@.len() == 0)
            }),
            r matches Err(e) ==> (e is MalformedCompactRecord || e is TreeInvariantBroken),
            r matches Err(e) && e is MalformedCompactRecord ==> *final(self) == *old(self),
            r matches Err(e) && e is MalformedCompactRecord <==> !((old(self).scan_orchard()
                ==> crate::extract::batch_actions_valid(block_views(blocks@), u32::MAX as nat))
                && (old(self).scan_sapling() ==> crate::extract::batch_outputs_valid(
                block_views(blocks@),
                u32::MAX as nat,
            ))),
    {
        match check_batch(blocks, self.pool, u32::MAX) {
            Ok(()) => (),
            Err(e) => {
                return Err(e);
            },
        }
        let ghost bs = block_views(blocks@);
        let scan_a = self.pool.sync_orchard();
        let scan_b = self.pool.sync_sapling();
        let tree_bc = extract_batch_contents(blocks, self.pool, u32::MAX);
        let ghost tree_a_entries = batch_action_entries(bs, u32::MAX as nat);
        let ghost tree_b_entries = batch_output_entries(bs, u32::MAX as nat);
        let mut added_actions: u64 = 0;
        let mut added_outputs: u64 = 0;
        if scan_a {
            let next = self.orchard_tree.next_position();
            if tree_bc.actions.len() as u64 > 0x1_0000_0000u64 - next {
                return Err(SyncError::TreeInvariantBroken);
            }
            let tag = tag_retention_actions(
                &tree_bc.actions,
                self.orchard_witnesses_tracked,
                self.n_witnesses,
            );
            let ghost pre_leaves = self.orchard_tree.leaves();
            match self.orchard_tree.extend(&tag.0) {
                Ok(()) => (),
                Err(e) => {
                    return Err(e);
                },
            }
            self.orchard_witnesses_tracked = tag.1;
            added_actions = tree_bc.actions.len() as u64;
            self.total_actions = self.total_actions + added_actions;
            proof {
                assert(tag.0@.map_values(|p: ([u8; 32], LeafRetention)| p.0@)
                    =~= action_entry_leaves(tree_a_entries)) by {
                    assert forall|i: int| 0 <= i < tree_a_entries.len() implies tag.0@.map_values(
                        |p: ([u8; 32], LeafRetention)| p.0@,
                    )[i] == action_entry_leaves(tree_a_entries)[i] by {
                        assert(tag.0@[i].0 == tree_bc.actions@[i].cmx);
                        assert(tree_bc.actions@[i]@ == tree_a_entries[i].0);
                    }
                }
            }
        }
        if scan_b {
            let next = self.sapling_tree.next_position();
            if tree_bc.outputs.len() as u64 > 0x1_0000_0000u64 - next {
                return Err(SyncError::TreeInvariantBroken);
            }
            let tag = tag_retention_outputs(
                &tree_bc.outputs,
                self.sapling_witnesses_tracked,
                self.n_witnesses,
            );
            match self.sapling_tree.extend(&tag.0) {
                Ok(()) => (),
                Err(e) => {
                    return Err(e);
                },
            }
            self.sapling_witnesses_tracked = tag.1;
            added_outputs = tree_bc.outputs.len() as u64;
            self.total_outputs = self.total_outputs + added_outputs;
            proof {
                assert(tag.0@.map_values(|p: ([u8; 32], LeafRetention)| p.0@)
                    =~= output_entry_leaves(tree_b_entries)) by {
                    assert forall|i: int| 0 <= i < tree_b_entries.len() implies tag.0@.map_values(
                        |p: ([u8; 32], LeafRetention)| p.0@,
                    )[i] == output_entry_leaves(tree_b_entries)[i] by {
                        assert(tag.0@[i].0 == tree_bc.outputs@[i].cmu);
                        assert(tree_bc.outputs@[i]@ == tree_b_entries[i].0);
                    }
                }
            }
        }
        proof {
            if self.pool is Orchard || self.pool is Both {
                lemma_batch_actions_valid_monotone(
                    bs,
                    u32::MAX as nat,
                    self.spam_filter_limit as nat,
                );
            }
            if self.pool is Sapling || self.pool is Both {
                lemma_batch_outputs_valid_monotone(
                    bs,
                    u32::MAX as nat,
                    self.spam_filter_limit as nat,
                );
            }
        }
        let scan_bc = extract_batch_contents(blocks, self.pool, self.spam_filter_limit);
        let ghost scan_a_entries = batch_action_entries(bs, self.spam_filter_limit as nat);
        let ghost scan_b_entries = batch_output_entries(bs, self.spam_filter_limit as nat);
        let orchard_hits: Vec<DecryptHit> = if scan_a {
            batch_decrypt_compact_orchard(&self.ivks_orchard, &scan_bc.actions, &scan_bc.action_txids)
        } else {
            Vec::new()
        };
        let sapling_hits: Vec<DecryptHit> = if scan_b {
            batch_decrypt_compact_sapling(&self.ivks_sapling, &scan_bc.outputs, &scan_bc.output_txids)
        } else {
            Vec::new()
        };
        proof {
            if scan_a {
                assert(scan_bc.actions@.map_values(|a: CheckedAction| a@) =~= scan_a_entries
                    .map_values(|e: (ActionView, Seq<u8>)| e.0));
                let m = orchard_trial_matches(
                    self.orchard_keys(),
                    scan_a_entries.map_values(|e: (ActionView, Seq<u8>)| e.0),
                );
                assert(hits_match(orchard_hits@, m, scan_bc.action_txids@));
                assert forall|k: int| 0 <= k < orchard_hits@.len() implies (
                #[trigger] orchard_hits@[k]).txid@ == scan_a_entries.map_values(
                    |e: (ActionView, Seq<u8>)| e.1,
                )[orchard_hits@[k].index as int] by {
                    let idx = orchard_hits@[k].index as int;
                    assert(scan_bc.actions@[idx]@ == scan_a_entries[idx].0);
                    assert(orchard_hits@[k].txid@ == scan_bc.action_txids@[idx]@);
                }
                crate::decrypt::lemma_hit_indices_bounded(m);
                lemma_action_count_monotone(bs, u32::MAX as nat, self.spam_filter_limit as nat);
            }
            if scan_b {
                assert(scan_bc.outputs@.map_values(|o: CheckedOutput| o@) =~= scan_b_entries
                    .map_values(|e: (OutputView, Seq<u8>)| e.0));
                let m = sapling_trial_matches(
                    self.sapling_keys(),
                    scan_b_entries.map_values(|e: (OutputView, Seq<u8>)| e.0),
                );
                assert(hits_match(sapling_hits@, m, scan_bc.output_txids@));
                assert forall|k: int| 0 <= k < sapling_hits@.len() implies (
                #[trigger] sapling_hits@[k]).txid@ == scan_b_entries.map_values(
                    |e: (OutputView, Seq<u8>)| e.1,
                )[sapling_hits@[k].index as int] by {
                    let idx = sapling_hits@[k].index as int;
                    assert(scan_bc.outputs@[idx]@ == scan_b_entries[idx].0);
                    assert(sapling_hits@[k].txid@ == scan_bc.output_txids@[idx]@);
                }
                crate::decrypt::lemma_hit_indices_bounded(m);
                lemma_output_count_monotone(bs, u32::MAX as nat, self.spam_filter_limit as nat);
            }
        }
        proof {
            if self.pool is Orchard || self.pool is Both {
                crate::decrypt::lemma_hit_indices_bounded(
                    orchard_trial_matches(
                        self.orchard_keys(),
                        scan_a_entries.map_values(|e: (ActionView, Seq<u8>)| e.0),
                    ),
                );
                assert(orchard_hits@.len() <= scan_a_entries.len());
                assert(scan_a_entries.len() <= tree_a_entries.len());
                assert(tree_a_entries.len() == added_actions);
            } else {
                assert(orchard_hits@.len() == 0);
            }
            if self.pool is Sapling || self.pool is Both {
                crate::decrypt::lemma_hit_indices_bounded(
                    sapling_trial_matches(
                        self.sapling_keys(),
                        scan_b_entries.map_values(|e: (OutputView, Seq<u8>)| e.0),
                    ),
                );
                assert(sapling_hits@.len() <= scan_b_entries.len());
                assert(scan_b_entries.len() <= tree_b_entries.len());
                assert(tree_b_entries.len() == added_outputs);
            } else {
                assert(sapling_hits@.len() == 0);
            }
            crate::tree::lemma_orchard_leaf_capacity(self.orchard_tree);
            crate::tree::lemma_sapling_leaf_capacity(self.sapling_tree);
            assert(self.total_actions <= 0x1_0000_0000);
            assert(self.total_outputs <= 0x1_0000_0000);
        }
        let mut scanned_actions: u64 = 0;
        let mut scanned_outputs: u64 = 0;
        if scan_a {
            scanned_actions = scan_bc.actions.len() as u64;
            self.total_scanned_actions = self.total_scanned_actions + scanned_actions;
        }
        if scan_b {
            scanned_outputs = scan_bc.outputs.len() as u64;
            self.total_scanned_outputs = self.total_scanned_outputs + scanned_outputs;
        }
        self.total_hits = self.total_hits + orchard_hits.len() as u64
            + sapling_hits.len() as u64;
        Ok(BatchOutcome {
            orchard_hits,
            sapling_hits,
            added_actions,
            added_outputs,
            scanned_actions,
            scanned_outputs,
        })
    }

    /// Verifies the computed roots against the server's and closes the
    /// books.
    ///
    /// Root agreement law: for a scanned pool the result is `Ok`
    /// exactly when the root computed from the seeded frontier and
    /// every appended commitment equals the root the server reported
    /// (whenever the tree can compute its root at all); a divergence
    /// is `RootMismatch` with both values, and a missing server root
    /// for a scanned pool is `RootUnverifiable`.
    pub fn finalize(&self, expected_orchard_root: Option<&Vec<u8>>, expected_sapling_root: Option<
        &Vec<u8>,
    >) -> (r: Result<SyncReport, SyncError>)
        requires
            self.wf(),
        ensures
            r is Ok <==> ({
                &&& (self.scan_orchard() ==> (expected_orchard_root matches Some(x) && x@
                    == orchard_root_of(self.orchard_frontier(), self.orchard_leaves())))
                &&& (self.scan_sapling() ==> (expected_sapling_root matches Some(x) && x@
                    == sapling_root_of(self.sapling_frontier(), self.sapling_leaves())))
            }),
            r matches Ok(rep) ==> {
                &&& rep.total_actions == self.spec_total_actions()
                &&& rep.total_outputs == self.spec_total_outputs()
                &&& rep.total_scanned_actions == self.spec_total_scanned_actions()
                &&& rep.total_scanned_outputs == self.spec_total_scanned_outputs()
                &&& rep.total_hits == self.spec_total_hits()
                &&& (self.scan_orchard() ==> (rep.orchard_root matches Some(h) && (h@
                    == orchard_root_of(self.orchard_frontier(), self.orchard_leaves())
                    && (expected_orchard_root matches Some(x) && x@ == h@))))
                &&& (self.scan_sapling() ==> (rep.sapling_root matches Some(h) && (h@
                    == sapling_root_of(self.sapling_frontier(), self.sapling_leaves())
                    && (expected_sapling_root matches Some(x) && x@ == h@))))
            },
            r matches Err(e) ==> (e is RootMismatch || e is RootUnverifiable),
            r matches Err(e) && e is RootUnverifiable <==> (self.scan_orchard()
                && expected_orchard_root is None) || (self.scan_sapling()
                && expected_sapling_root is None),
            r matches Err(e) ==> (e matches SyncError::RootMismatch {
                expected: xe,
                actual: xa,
            } ==> xa@ != xe@ && (xa@ == orchard_root_of(
                self.orchard_frontier(),
                self.orchard_leaves(),
            ) || xa@ == sapling_root_of(self.sapling_frontier(), self.sapling_leaves()))),
    {
        let scan_a = self.pool.sync_orchard();
        let scan_b = self.pool.sync_sapling();
        let mut orchard_root: Option<Vec<u8>> = None;
        let mut sapling_root: Option<Vec<u8>> = None;
        if scan_a && expected_orchard_root.is_none() {
            return Err(SyncError::RootUnverifiable);
        }
        if scan_b && expected_sapling_root.is_none() {
            return Err(SyncError::RootUnverifiable);
        }
        if scan_a {
            let expected = expected_orchard_root.unwrap();
            let actual = self.orchard_tree.root()?;
            if !crate::encoding::bytes_eq(actual.as_slice(), expected.as_slice()) {
                return Err(SyncError::RootMismatch { expected: expected.clone(), actual });
            }
            orchard_root = Some(actual);
        }
        if scan_b {
            let expected = expected_sapling_root.unwrap();
            let actual = self.sapling_tree.root()?;
            if !crate::encoding::bytes_eq(actual.as_slice(), expected.as_slice()) {
                return Err(SyncError::RootMismatch { expected: expected.clone(), actual });
            }
            sapling_root = Some(actual);
        }
        Ok(SyncReport {
            total_actions: self.total_actions,
            total_outputs: self.total_outputs,
            total_scanned_actions: self.total_scanned_actions,
            total_scanned_outputs: self.total_scanned_outputs,
            total_hits: self.total_hits,
            orchard_root,
            sapling_root,
        })
    }

    /// Produces the authentication path of the marked pool-A leaf at
    /// `position`, checkpointing the tree tip under the given
    /// identifier first; the tree contents are unchanged.
    pub fn orchard_witness(&mut self, checkpoint_id: u32, position: u64) -> (r: Result<
        Vec<[u8; 32]>,
        SyncError,
    >)
        requires
            old(self).wf(),
        ensures
            final(self).wf(),
            final(self).scan_orchard() == old(self).scan_orchard(),
            final(self).scan_sapling() == old(self).scan_sapling(),
            final(self).spec_spam_limit() == old(self).spec_spam_limit(),
            final(self).orchard_keys() == old(self).orchard_keys(),
            final(self).sapling_keys() == old(self).sapling_keys(),
            final(self).spec_total_actions() == old(self).spec_total_actions(),
            final(self).spec_total_outputs() == old(self).spec_total_outputs(),
            final(self).spec_total_scanned_actions() == old(self).spec_total_scanned_actions(),
            final(self).spec_total_scanned_outputs() == old(self).spec_total_scanned_outputs(),
            final(self).spec_total_hits() == old(self).spec_total_hits(),
            final(self).sapling_frontier() == old(self).sapling_frontier(),
            final(self).sapling_leaves() == old(self).sapling_leaves(),
            final(self).sapling_base() == old(self).sapling_base(),
            final(self).orchard_leaves() == old(self).orchard_leaves(),
            final(self).orchard_frontier() == old(self).orchard_frontier(),
            final(self).orchard_base() == old(self).orchard_base(),
            r matches Ok(p) ==> {
                &&& p@.len() == 32
                &&& (old(self).orchard_base() <= position < old(self).orchard_base() + old(
                    self,
                ).orchard_leaves().len() ==> crate::tree::orchard_path_root_of(
                    p.deep_view(),
                    position as nat,
                    old(self).orchard_leaves()[position - old(self).orchard_base()],
                ) == orchard_root_of(old(self).orchard_frontier(), old(self).orchard_leaves()))
                &&& (old(self).orchard_base() >= 1 && position == old(self).orchard_base() - 1
                    && old(self).orchard_frontier().len() >= 2 ==> crate::tree::orchard_path_root_of(
                    p.deep_view(),
                    position as nat,
                    old(self).orchard_frontier()[1],
                ) == orchard_root_of(old(self).orchard_frontier(), old(self).orchard_leaves()))
            },
            r matches Err(e) ==> e is TreeInvariantBroken,
    {
        self.orchard_tree.witness(checkpoint_id, position)
    }

    /// Produces the authentication path of the marked pool-B leaf at
    /// `position`.
    pub fn sapling_witness(&mut self, checkpoint_id: u32, position: u64) -> (r: Result<
        Vec<[u8; 32]>,
        SyncError,
    >)
        requires
            old(self).wf(),
        ensures
            final(self).wf(),
            final(self).scan_orchard() == old(self).scan_orchard(),
            final(self).scan_sapling() == old(self).scan_sapling(),
            final(self).spec_spam_limit() == old(self).spec_spam_limit(),
            final(self).orchard_keys() == old(self).orchard_keys(),
            final(self).sapling_keys() == old(self).sapling_keys(),
            final(self).spec_total_actions() == old(self).spec_total_actions(),
            final(self).spec_total_outputs() == old(self).spec_total_outputs(),
            final(self).spec_total_scanned_actions() == old(self).spec_total_scanned_actions(),
            final(self).spec_total_scanned_outputs() == old(self).spec_total_scanned_outputs(),
            final(self).spec_total_hits() == old(self).spec_total_hits(),
            final(self).orchard_frontier() == old(self).orchard_frontier(),
            final(self).orchard_leaves() == old(self).orchard_leaves(),
            final(self).orchard_base() == old(self).orchard_base(),
            final(self).sapling_leaves() == old(self).sapling_leaves(),
            final(self).sapling_frontier() == old(self).sapling_frontier(),
            final(self).sapling_base() == old(self).sapling_base(),
            r matches Ok(p) ==> {
                &&& p@.len() == 32
                &&& (old(self).sapling_base() <= position < old(self).sapling_base() + old(
                    self,
                ).sapling_leaves().len() ==> crate::tree::sapling_path_root_of(
                    p.deep_view(),
                    position as nat,
                    old(self).sapling_leaves()[position - old(self).sapling_base()],
                ) == sapling_root_of(old(self).sapling_frontier(), old(self).sapling_leaves()))
                &&& (old(self).sapling_base() >= 1 && position == old(self).sapling_base() - 1
                    && old(self).sapling_frontier().len() >= 2 ==> crate::tree::sapling_path_root_of(
                    p.deep_view(),
                    position as nat,
                    old(self).sapling_frontier()[1],
                ) == sapling_root_of(old(self).sapling_frontier(), old(self).sapling_leaves()))
            },
            r matches Err(e) ==> e is TreeInvariantBroken,
    {
        self.sapling_tree.witness(checkpoint_id, position)
    }

    /// The position the next pool-A commitment will get.
    pub fn orchard_next_position(&self) -> (r: u64)
        requires
            self.wf(),
        ensures
            r == self.orchard_base() + self.orchard_leaves().len(),
    {
        self.orchard_tree.next_position()
    }

    /// The position the next pool-B commitment will get.
    pub fn sapling_next_position(&self) -> (r: u64)
        requires
            self.wf(),
        ensures
            r == self.sapling_base() + self.sapling_leaves().len(),
    {
        self.sapling_tree.next_position()
    }
}

/// Tags each pool-A record's commitment with its retention: leaves
/// are marked while the witness budget lasts, in batch order, and the
/// tag never changes how many leaves there are.
fn tag_retention_actions(records: &Vec<CheckedAction>, already_marked: u32, budget: u32) -> (r: (
    Vec<([u8; 32], LeafRetention)>,
    u32,
))
    requires
        already_marked <= budget,
    ensures
        r.0@.len() == records@.len(),
        forall|i: int|
            0 <= i < records@.len() ==> (#[trigger] r.0@[i]).0 == records@[i].cmx && r.0@[i].1 == (
            if already_marked + i < budget {
                LeafRetention::Marked
            } else {
                LeafRetention::Ephemeral
            }),
        already_marked <= r.1 <= budget,
{
    let mut out: Vec<([u8; 32], LeafRetention)> = Vec::new();
    let mut now: u32 = already_marked;
    let mut i: usize = 0;
    while i < records.len()
        invariant
            already_marked <= now <= budget,
            i <= records@.len(),
            out@.len() == i,
            now == if already_marked + i < budget {
                already_marked + i
            } else {
                budget as int
            },
            forall|k: int|
                0 <= k < i ==> (#[trigger] out@[k]).0 == records@[k].cmx && out@[k].1 == (
                if already_marked + k < budget {
                    LeafRetention::Marked
                } else {
                    LeafRetention::Ephemeral
                }),
        decreases records@.len() - i,
    {
        let retention = if now < budget {
            now = now + 1;
            LeafRetention::Marked
        } else {
            LeafRetention::Ephemeral
        };
        out.push((records[i].cmx, retention));
        i = i + 1;
    }
    (out, now)
}

/// Tags each pool-B record's commitment with its retention.
fn tag_retention_outputs(records: &Vec<CheckedOutput>, already_marked: u32, budget: u32) -> (r: (
    Vec<([u8; 32], LeafRetention)>,
    u32,
))
    requires
        already_marked <= budget,
    ensures
        r.0@.len() == records@.len(),
        forall|i: int|
            0 <= i < records@.len() ==> (#[trigger] r.0@[i]).0 == records@[i].cmu && r.0@[i].1 == (
            if already_marked + i < budget {
                LeafRetention::Marked
            } else {
                LeafRetention::Ephemeral
            }),
        already_marked <= r.1 <= budget,
{
    let mut out: Vec<([u8; 32], LeafRetention)> = Vec::new();
    let mut now: u32 = already_marked;
    let mut i: usize = 0;
    while i < records.len()
        invariant
            already_marked <= now <= budget,
            i <= records@.len(),
            out@.len() == i,
            now == if already_marked + i < budget {
                already_marked + i
            } else {
                budget as int
            },
            forall|k: int|
                0 <= k < i ==> (#[trigger] out@[k]).0 == records@[k].cmu && out@[k].1 == (
                if already_marked + k < budget {
                    LeafRetention::Marked
                } else {
                    LeafRetention::Ephemeral
                }),
        decreases records@.len() - i,
    {
        let retention = if now < budget {
            now = now + 1;
            LeafRetention::Marked
        } else {
            LeafRetention::Ephemeral
        };
        out.push((records[i].cmu, retention));
        i = i + 1;
    }
    (out, now)
}

/// Leaf count law at the session level: the running totals are
/// exactly the number of commitments each tree has received; marking
/// leaves for witnesses tags them but never changes this count.
pub proof fn lemma_totals_count_leaves(s: SyncSession)
    requires
        s.wf(),
    ensures
        s.spec_total_actions() == s.orchard_leaves().len(),
        s.spec_total_outputs() == s.sapling_leaves().len(),
{
}

/// A map over a flattened sequence of sequences equals the flattening
/// of the per-sequence maps.
proof fn lemma_map_of_flatten<A, B>(ss: Seq<Seq<A>>, g: spec_fn(A) -> B)
    ensures
        ss.flatten().map_values(g) == ss.map_values(|s: Seq<A>| s.map_values(g)).flatten(),
    decreases ss.len(),
{
    let m = |s: Seq<A>| s.map_values(g);
    if ss.len() == 0 {
        assert(ss.flatten() =~= Seq::<A>::empty());
        assert(ss.flatten().map_values(g) =~= Seq::<B>::empty());
        assert(ss.map_values(m) =~= Seq::<Seq<B>>::empty());
    } else {
        lemma_map_of_flatten(ss.drop_last(), g);
        assert(ss =~= ss.drop_last().push(ss.last()));
        ss.drop_last().lemma_flatten_push(ss.last());
        assert((ss.drop_last().flatten() + ss.last()).map_values(g) =~= ss.drop_last()
            .flatten().map_values(g) + ss.last().map_values(g));
        assert(ss.map_values(m) =~= ss.drop_last().map_values(m).push(m(ss.last())));
        ss.drop_last().map_values(m).lemma_flatten_push(m(ss.last()));
    }
}

/// Batch invariance law, combined: however the same blocks are cut
/// into batches, the pool-A commitments the tree receives over the
/// whole run are the same sequence, so — roots being determined by
/// the seeded frontier and that sequence — the final root is the
/// same whatever the batch size.
pub proof fn lemma_final_root_batch_invariant(
    batches1: Seq<Seq<BlockView>>,
    batches2: Seq<Seq<BlockView>>,
    limit: nat,
    frontier: Seq<Seq<u8>>,
)
    requires
        batches1.flatten() == batches2.flatten(),
    ensures
        batches1.map_values(
            |bs: Seq<BlockView>| action_entry_leaves(batch_action_entries(bs, limit)),
        ).flatten() == batches2.map_values(
            |bs: Seq<BlockView>| action_entry_leaves(batch_action_entries(bs, limit)),
        ).flatten(),
        crate::tree::orchard_root_of(
            frontier,
            batches1.map_values(
                |bs: Seq<BlockView>| action_entry_leaves(batch_action_entries(bs, limit)),
            ).flatten(),
        ) == crate::tree::orchard_root_of(
            frontier,
            batches2.map_values(
                |bs: Seq<BlockView>| action_entry_leaves(batch_action_entries(bs, limit)),
            ).flatten(),
        ),
{
    lemma_batches_leaves(batches1, limit);
    lemma_batches_leaves(batches2, limit);
    lemma_batching_invariance_actions(batches1, limit);
    lemma_batching_invariance_actions(batches2, limit);
}

/// The concatenation of per-batch pool-A leaf sequences is the leaf
/// sequence of the concatenated blocks.
proof fn lemma_batches_leaves(batches: Seq<Seq<BlockView>>, limit: nat)
    ensures
        batches.map_values(
            |bs: Seq<BlockView>| action_entry_leaves(batch_action_entries(bs, limit)),
        ).flatten() == action_entry_leaves(batch_action_entries(batches.flatten(), limit)),
{
    let g = |e: (ActionView, Seq<u8>)| e.0.cmx;
    let ent = |bs: Seq<BlockView>| batch_action_entries(bs, limit);
    lemma_map_of_flatten(batches.map_values(ent), g);
    lemma_batching_invariance_actions(batches, limit);
    assert(batches.map_values(ent).map_values(|s: Seq<(ActionView, Seq<u8>)>| s.map_values(g))
        =~= batches.map_values(
        |bs: Seq<BlockView>| action_entry_leaves(batch_action_entries(bs, limit)),
    ));
    assert(batches.map_values(ent).flatten().map_values(g) == action_entry_leaves(
        batch_action_entries(batches.flatten(), limit),
    ));
}

} // verus!
