//! The per-pool note-commitment trees.
//!
//! Each pool keeps a fixed-depth sharded Merkle tree over its own hash
//! type. The tree collection itself comes from an outside crate and is
//! held in an opaque handle behind trusted wrappers; the contracts
//! track exactly what the tree holds — the installed frontier parts
//! and the appended leaf hashes, in position order — so that
//! positions, counts, and the final root are verified properties of
//! the inserted leaf sequence alone.

use vstd::prelude::*;

use crate::SyncError;
use crate::crypto::{orchard_hash_canonical, orchard_hash_check};
use crate::crypto::{sapling_hash_canonical, sapling_hash_check};
use crate::crypto::{orchard_cmx_canonical, sapling_cmu_canonical};
use crate::encoding::u64_le_bytes;
use crate::frontier::{FrontierData, FrontierView, ParsedFrontier};
use incrementalmerkletree::frontier::Frontier;
use incrementalmerkletree::{Level, Marking, Position, Retention};
use orchard::tree::MerkleHashOrchard;
use sapling_crypto::Node as SaplingNode;
use shardtree::LocatedPrunableTree;

verus! {

/// Tree depth shared by both pools.
pub const TREE_DEPTH: u8 = 32;

/// Height of one stored subtree shard: half the tree depth.
pub const SHARD_HEIGHT: u8 = 16;

/// Leaves appended per parallel subtree-build chunk.
pub const BUILD_CHUNK: usize = 1024;

/// How a leaf is retained in the tree: a marked leaf keeps its
/// authentication path available; an ephemeral leaf may be pruned
/// once its hash has been folded into the spine.
#[derive(Clone, Copy, Debug, PartialEq, Eq, Structural)]
pub enum LeafRetention {
    Ephemeral,
    Marked,
}

/// Opaque handle on the pool-A sharded commitment tree of the outside
/// crate; `otree_frontier`, `otree_base` and `otree_leaves` describe
/// its contents.
#[verifier::external_body]
pub struct OrchardTreeHandle {
    inner: shardtree::ShardTree<
        shardtree::store::memory::MemoryShardStore<orchard::tree::MerkleHashOrchard, u32>,
        32,
        16,
    >,
}

/// Opaque handle on the pool-B sharded commitment tree.
#[verifier::external_body]
pub struct SaplingTreeHandle {
    inner: shardtree::ShardTree<
        shardtree::store::memory::MemoryShardStore<sapling_crypto::Node, u32>,
        32,
        16,
    >,
}

/// The frontier parts a pool-A tree was seeded with: eight position
/// bytes, then the frontier leaf hash, then the ommers; empty for a
/// fresh tree.
pub uninterp spec fn otree_frontier(t: OrchardTreeHandle) -> Seq<Seq<u8>>;

/// The position the first appended leaf of a pool-A tree lands at:
/// zero for a fresh tree, the frontier position plus one otherwise.
pub uninterp spec fn otree_base(t: OrchardTreeHandle) -> nat;

/// The leaf hashes appended to a pool-A tree, in position order; leaf
/// `i` sits at position `otree_base(t) + i`.
pub uninterp spec fn otree_leaves(t: OrchardTreeHandle) -> Seq<Seq<u8>>;

/// The pool-A tree root over all leaves, as a function of the seeded
/// frontier parts and the appended leaf sequence.
pub uninterp spec fn orchard_root_of(frontier: Seq<Seq<u8>>, leaves: Seq<Seq<u8>>) -> Seq<u8>;

/// The frontier parts of a pool-B tree; empty for a fresh tree.
pub uninterp spec fn stree_frontier(t: SaplingTreeHandle) -> Seq<Seq<u8>>;

/// The position the first appended leaf of a pool-B tree lands at.
pub uninterp spec fn stree_base(t: SaplingTreeHandle) -> nat;

/// The leaf hashes appended to a pool-B tree, in position order.
pub uninterp spec fn stree_leaves(t: SaplingTreeHandle) -> Seq<Seq<u8>>;

/// The pool-B tree root over all leaves.
pub uninterp spec fn sapling_root_of(frontier: Seq<Seq<u8>>, leaves: Seq<Seq<u8>>) -> Seq<u8>;

/// The encoding under which a parsed frontier enters `otree_frontier`
/// / `stree_frontier`: position bytes, leaf, ommers.
pub open spec fn frontier_parts(f: FrontierView) -> Seq<Seq<u8>> {
    seq![u64_le_bytes(f.position)] + seq![f.leaf] + f.ommers
}

/// Relies on `ShardTree::new` with an empty in-memory store: a fresh
/// tree holds nothing and starts at position zero.
#[verifier::external_body]
fn orchard_tree_empty() -> (t: OrchardTreeHandle)
    ensures
        otree_frontier(t) == Seq::<Seq<u8>>::empty(),
        otree_base(t) == 0,
        otree_leaves(t) == Seq::<Seq<u8>>::empty(),
{
    OrchardTreeHandle {
        inner: shardtree::ShardTree::new(shardtree::store::memory::MemoryShardStore::empty(), 1),
    }
}

/// Relies on `ShardTree::new` with an empty in-memory store.
#[verifier::external_body]
fn sapling_tree_empty() -> (t: SaplingTreeHandle)
    ensures
        stree_frontier(t) == Seq::<Seq<u8>>::empty(),
        stree_base(t) == 0,
        stree_leaves(t) == Seq::<Seq<u8>>::empty(),
{
    SaplingTreeHandle {
        inner: shardtree::ShardTree::new(shardtree::store::memory::MemoryShardStore::empty(), 1),
    }
}

/// Relies on `Frontier::from_parts`, which accepts exactly a frontier
/// whose ommer count is the number of one bits of its position (that
/// law is required here), and on `ShardTree::insert_frontier` with
/// checkpoint retention, which cannot fail when seeding a fresh tree:
/// the tree holds exactly these frontier nodes afterwards and the
/// next leaf lands at position plus one.
#[verifier::external_body]
fn orchard_tree_install_frontier(t: &mut OrchardTreeHandle, fd: &FrontierData, checkpoint_id: u32)
    -> (r: bool)
    requires
        otree_frontier(*old(t)).len() == 0,
        otree_leaves(*old(t)).len() == 0,
        fd@.leaf.len() == 32,
        orchard_hash_canonical(fd@.leaf),
        forall|i: int|
            0 <= i < fd@.ommers.len() ==> (#[trigger] fd@.ommers[i]).len() == 32
                && orchard_hash_canonical(fd@.ommers[i]),
        fd@.ommers.len() == crate::encoding::pop_count(fd.position as nat),
        fd.position < 0x1_0000_0000,
    ensures
        r,
        otree_frontier(*final(t)) == frontier_parts(fd@),
        otree_base(*final(t)) == fd.position + 1,
        otree_leaves(*final(t)) == Seq::<Seq<u8>>::empty(),
{
    let leaf = MerkleHashOrchard::from_bytes(fd.leaf.as_slice().try_into().unwrap()).unwrap();
    let os: Vec<MerkleHashOrchard> = fd.ommers.iter().map(
        |o| MerkleHashOrchard::from_bytes(o.as_slice().try_into().unwrap()).unwrap(),
    ).collect();
    let cp = Retention::Checkpoint { id: checkpoint_id, marking: Marking::None };
    match Frontier::<_, 32>::from_parts(Position::from(fd.position), leaf, os) {
        Ok(f) => t.inner.insert_frontier(f, cp).is_ok(),
        Err(_) => false,
    }
}

/// Relies on `Frontier::from_parts` and `ShardTree::insert_frontier`,
/// as the pool-A twin does; with the ommer-count law required,
/// seeding a fresh tree cannot fail.
#[verifier::external_body]
fn sapling_tree_install_frontier(t: &mut SaplingTreeHandle, fd: &FrontierData, checkpoint_id: u32)
    -> (r: bool)
    requires
        stree_frontier(*old(t)).len() == 0,
        stree_leaves(*old(t)).len() == 0,
        fd@.leaf.len() == 32,
        sapling_hash_canonical(fd@.leaf),
        forall|i: int|
            0 <= i < fd@.ommers.len() ==> (#[trigger] fd@.ommers[i]).len() == 32
                && sapling_hash_canonical(fd@.ommers[i]),
        fd@.ommers.len() == crate::encoding::pop_count(fd.position as nat),
        fd.position < 0x1_0000_0000,
    ensures
        r,
        stree_frontier(*final(t)) == frontier_parts(fd@),
        stree_base(*final(t)) == fd.position + 1,
        stree_leaves(*final(t)) == Seq::<Seq<u8>>::empty(),
{
    let leaf = SaplingNode::from_bytes(fd.leaf.as_slice().try_into().unwrap()).unwrap();
    let os: Vec<SaplingNode> = fd.ommers.iter().map(
        |o| SaplingNode::from_bytes(o.as_slice().try_into().unwrap()).unwrap(),
    ).collect();
    let cp = Retention::Checkpoint { id: checkpoint_id, marking: Marking::None };
    match Frontier::<_, 32>::from_parts(Position::from(fd.position), leaf, os) {
        Ok(f) => t.inner.insert_frontier(f, cp).is_ok(),
        Err(_) => false,
    }
}

/// Relies on `LocatedPrunableTree::from_iter` and
/// `ShardTree::insert_tree`: the subtree built from the chunk is
/// spliced in at positions `start .. start + items.len()`, so the
/// appended leaf sequence grows by exactly the chunk's commitments,
/// in order. For a non-empty chunk at the first free positions the
/// splice cannot fail: `from_iter` always builds a subtree for a
/// non-empty in-range chunk, and the merge in `insert_tree` conflicts
/// only on a disagreeing value at an occupied address, which a
/// contiguous append at fresh positions never produces.
#[verifier::external_body]
fn orchard_tree_insert_chunk(
    t: &mut OrchardTreeHandle,
    start: u64,
    items: &Vec<([u8; 32], LeafRetention)>,
) -> (r: bool)
    requires
        items@.len() >= 1,
        start == otree_base(*old(t)) + otree_leaves(*old(t)).len(),
        start + items@.len() <= 0x1_0000_0000,
        forall|i: int|
            0 <= i < items@.len() ==> orchard_cmx_canonical((#[trigger] items@[i]).0@),
    ensures
        r,
        otree_frontier(*final(t)) == otree_frontier(*old(t)),
        otree_base(*final(t)) == otree_base(*old(t)),
        otree_leaves(*final(t)) == otree_leaves(*old(t)) + items@.map_values(
            |p: ([u8; 32], LeafRetention)| p.0@,
        ),
{
    let rng = Position::from(start)..Position::from(start + items.len() as u64);
    let iter = items.iter().map(
        |p| (
            MerkleHashOrchard::from_cmx(&orchard::note::ExtractedNoteCommitment::from_bytes(&p.0).unwrap()),
            if let LeafRetention::Marked = p.1 { Retention::Marked } else { Retention::Ephemeral },
        ),
    );
    match LocatedPrunableTree::from_iter(rng, Level::from(16u8), iter) {
        Some(res) => t.inner.insert_tree(res.subtree, res.checkpoints).is_ok(),
        None => false,
    }
}

/// Relies on `LocatedPrunableTree::from_iter` and
/// `ShardTree::insert_tree`, as the pool-A twin does; a contiguous
/// non-empty append at the first free positions cannot fail.
#[verifier::external_body]
fn sapling_tree_insert_chunk(
    t: &mut SaplingTreeHandle,
    start: u64,
    items: &Vec<([u8; 32], LeafRetention)>,
) -> (r: bool)
    requires
        items@.len() >= 1,
        start == stree_base(*old(t)) + stree_leaves(*old(t)).len(),
        start + items@.len() <= 0x1_0000_0000,
        forall|i: int|
            0 <= i < items@.len() ==> sapling_cmu_canonical((#[trigger] items@[i]).0@),
    ensures
        r,
        stree_frontier(*final(t)) == stree_frontier(*old(t)),
        stree_base(*final(t)) == stree_base(*old(t)),
        stree_leaves(*final(t)) == stree_leaves(*old(t)) + items@.map_values(
            |p: ([u8; 32], LeafRetention)| p.0@,
        ),
{
    let rng = Position::from(start)..Position::from(start + items.len() as u64);
    let iter = items.iter().map(
        |p| (
            SaplingNode::from_cmu(&sapling_crypto::note::ExtractedNoteCommitment::from_bytes(&p.0).unwrap()),
            if let LeafRetention::Marked = p.1 { Retention::Marked } else { Retention::Ephemeral },
        ),
    );
    match LocatedPrunableTree::from_iter(rng, Level::from(16u8), iter) {
        Some(res) => t.inner.insert_tree(res.subtree, res.checkpoints).is_ok(),
        None => false,
    }
}

/// Relies on `ShardTree::root_at_checkpoint_depth` asked for the root
/// over all leaves: the result depends on the seeded frontier and the
/// appended leaves alone. On the trees this module builds — a
/// frontier installation followed by contiguous appends — every hash
/// the computation needs is present, so it cannot fail.
#[verifier::external_body]
fn orchard_tree_root(t: &OrchardTreeHandle) -> (r: Option<[u8; 32]>)
    ensures
        r is Some,
        r matches Some(h) ==> h@ == orchard_root_of(otree_frontier(*t), otree_leaves(*t)),
{
    match t.inner.root_at_checkpoint_depth(None) {
        Ok(Some(h)) => Some(h.to_bytes()),
        _ => None,
    }
}

/// Relies on `ShardTree::root_at_checkpoint_depth` over all leaves;
/// on the trees this module builds it cannot fail.
#[verifier::external_body]
fn sapling_tree_root(t: &SaplingTreeHandle) -> (r: Option<[u8; 32]>)
    ensures
        r is Some,
        r matches Some(h) ==> h@ == sapling_root_of(stree_frontier(*t), stree_leaves(*t)),
{
    match t.inner.root_at_checkpoint_depth(None) {
        Ok(Some(h)) => Some(h.to_bytes()),
        _ => None,
    }
}

/// Relies on `ShardTree::checkpoint` — which records the rightmost
/// leaf state and neither adds nor removes leaves — followed by
/// `ShardTree::witness_at_checkpoint_depth` at depth zero against
/// that fresh tip checkpoint. Witness soundness: a returned path is
/// the authentication path of the leaf at `position` as of the
/// rightmost leaf, so hashing that leaf up the path yields the root
/// over all leaves. The path may be unavailable (a pruned leaf, a
/// position outside the tree, a reused checkpoint identifier); then
/// nothing is returned.
#[verifier::external_body]
fn orchard_tree_witness(t: &mut OrchardTreeHandle, checkpoint_id: u32, position: u64) -> (r:
    Option<Vec<[u8; 32]>>)
    ensures
        otree_frontier(*final(t)) == otree_frontier(*old(t)),
        otree_base(*final(t)) == otree_base(*old(t)),
        otree_leaves(*final(t)) == otree_leaves(*old(t)),
        r matches Some(p) ==> {
            &&& p@.len() == 32
            &&& (otree_base(*old(t)) <= position < otree_base(*old(t)) + otree_leaves(
                *old(t),
            ).len() ==> orchard_path_root_of(
                p.deep_view(),
                position as nat,
                otree_leaves(*old(t))[position - otree_base(*old(t))],
            ) == orchard_root_of(otree_frontier(*old(t)), otree_leaves(*old(t))))
            &&& (otree_base(*old(t)) >= 1 && position == otree_base(*old(t)) - 1
                && otree_frontier(*old(t)).len() >= 2 ==> orchard_path_root_of(
                p.deep_view(),
                position as nat,
                otree_frontier(*old(t))[1],
            ) == orchard_root_of(otree_frontier(*old(t)), otree_leaves(*old(t))))
        },
{
    if !matches!(t.inner.checkpoint(checkpoint_id), Ok(true)) {
        return None;
    }
    match t.inner.witness_at_checkpoint_depth(Position::from(position), 0) {
        Ok(Some(path)) => Some(path.path_elems().iter().map(|h| h.to_bytes()).collect()),
        _ => None,
    }
}

/// Relies on `ShardTree::checkpoint` and
/// `ShardTree::witness_at_checkpoint_depth`, as the pool-A twin does,
/// with the same witness-soundness guarantee.
#[verifier::external_body]
fn sapling_tree_witness(t: &mut SaplingTreeHandle, checkpoint_id: u32, position: u64) -> (r:
    Option<Vec<[u8; 32]>>)
    ensures
        stree_frontier(*final(t)) == stree_frontier(*old(t)),
        stree_base(*final(t)) == stree_base(*old(t)),
        stree_leaves(*final(t)) == stree_leaves(*old(t)),
        r matches Some(p) ==> {
            &&& p@.len() == 32
            &&& (stree_base(*old(t)) <= position < stree_base(*old(t)) + stree_leaves(
                *old(t),
            ).len() ==> sapling_path_root_of(
                p.deep_view(),
                position as nat,
                stree_leaves(*old(t))[position - stree_base(*old(t))],
            ) == sapling_root_of(stree_frontier(*old(t)), stree_leaves(*old(t))))
            &&& (stree_base(*old(t)) >= 1 && position == stree_base(*old(t)) - 1
                && stree_frontier(*old(t)).len() >= 2 ==> sapling_path_root_of(
                p.deep_view(),
                position as nat,
                stree_frontier(*old(t))[1],
            ) == sapling_root_of(stree_frontier(*old(t)), stree_leaves(*old(t))))
        },
{
    if !matches!(t.inner.checkpoint(checkpoint_id), Ok(true)) {
        return None;
    }
    match t.inner.witness_at_checkpoint_depth(Position::from(position), 0) {
        Ok(Some(path)) => Some(path.path_elems().iter().map(|h| h.to_bytes()).collect()),
        _ => None,
    }
}

/// Whether every hash a frontier carries is canonical for pool A.
pub open spec fn orchard_frontier_hashes_canonical(f: FrontierView) -> bool {
    &&& orchard_hash_canonical(f.leaf)
    &&& forall|i: int| 0 <= i < f.ommers.len() ==> orchard_hash_canonical(#[trigger] f.ommers[i])
}

/// Whether every hash a frontier carries is canonical for pool B.
pub open spec fn sapling_frontier_hashes_canonical(f: FrontierView) -> bool {
    &&& sapling_hash_canonical(f.leaf)
    &&& forall|i: int| 0 <= i < f.ommers.len() ==> sapling_hash_canonical(#[trigger] f.ommers[i])
}

/// The frontier parts a parsed frontier contributes: none when the
/// tree was empty.
pub open spec fn parsed_frontier_parts(pf: ParsedFrontier) -> Seq<Seq<u8>> {
    match pf {
        ParsedFrontier::Empty => Seq::<Seq<u8>>::empty(),
        ParsedFrontier::Present(fd) => frontier_parts(fd@),
    }
}

/// The pool-A tree with its verified bookkeeping: the position of the
/// first appended leaf and the number of leaves appended so far.
pub struct OrchardTreeState {
    handle: OrchardTreeHandle,
    base: u64,
    count: u64,
}

/// The pool-B tree with its verified bookkeeping.
pub struct SaplingTreeState {
    handle: SaplingTreeHandle,
    base: u64,
    count: u64,
}

impl OrchardTreeState {
    /// The frontier parts the tree was seeded with.
    pub closed spec fn frontier(self) -> Seq<Seq<u8>> {
        otree_frontier(self.handle)
    }

    /// The leaf hashes appended so far, in position order.
    pub closed spec fn leaves(self) -> Seq<Seq<u8>> {
        otree_leaves(self.handle)
    }

    /// The position of the first appended leaf.
    pub closed spec fn spec_base(self) -> nat {
        otree_base(self.handle)
    }

    /// The bookkeeping agrees with the tree contents and the tree has
    /// room for every assigned position.
    pub closed spec fn wf(self) -> bool {
        &&& self.base == otree_base(self.handle)
        &&& self.count == otree_leaves(self.handle).len()
        &&& self.base + self.count <= 0x1_0000_0000
    }

    /// The position the next appended leaf will get.
    pub open spec fn spec_next_position(self) -> nat {
        self.spec_base() + self.leaves().len()
    }

    /// The position the next appended leaf will get.
    pub fn next_position(&self) -> (r: u64)
        requires
            self.wf(),
        ensures
            r == self.spec_next_position(),
            r <= 0x1_0000_0000,
    {
        self.base + self.count
    }

    /// The number of leaves appended so far.
    pub fn leaf_count(&self) -> (r: u64)
        requires
            self.wf(),
        ensures
            r == self.leaves().len(),
    {
        self.count
    }
}

impl SaplingTreeState {
    /// The frontier parts the tree was seeded with.
    pub closed spec fn frontier(self) -> Seq<Seq<u8>> {
        stree_frontier(self.handle)
    }

    /// The leaf hashes appended so far, in position order.
    pub closed spec fn leaves(self) -> Seq<Seq<u8>> {
        stree_leaves(self.handle)
    }

    /// The position of the first appended leaf.
    pub closed spec fn spec_base(self) -> nat {
        stree_base(self.handle)
    }

    /// The bookkeeping agrees with the tree contents.
    pub closed spec fn wf(self) -> bool {
        &&& self.base == stree_base(self.handle)
        &&& self.count == stree_leaves(self.handle).len()
        &&& self.base + self.count <= 0x1_0000_0000
    }

    /// The position the next appended leaf will get.
    pub open spec fn spec_next_position(self) -> nat {
        self.spec_base() + self.leaves().len()
    }

    /// The position the next appended leaf will get.
    pub fn next_position(&self) -> (r: u64)
        requires
            self.wf(),
        ensures
            r == self.spec_next_position(),
            r <= 0x1_0000_0000,
    {
        self.base + self.count
    }

    /// The number of leaves appended so far.
    pub fn leaf_count(&self) -> (r: u64)
        requires
            self.wf(),
        ensures
            r == self.leaves().len(),
    {
        self.count
    }
}

/// Seeds a fresh pool-A tree from a parsed frontier, recorded as a
/// checkpoint under the given identifier (the bootstrap height).
///
/// An empty frontier yields a fresh tree whose first leaf gets
/// position zero; a right edge is installed after its hashes pass the
/// canonicity check, and the first leaf then gets the frontier
/// position plus one. Non-canonical server hashes are refused as
/// `MissingFrontier`; a refusal by the tree itself is
/// `TreeInvariantBroken`.
pub fn bootstrap_orchard_tree(pf: &ParsedFrontier, checkpoint_id: u32) -> (r: Result<
    OrchardTreeState,
    SyncError,
>)
    requires
        pf.wf(32),
    ensures
        r is Ok <==> !(pf matches ParsedFrontier::Present(fd) && !orchard_frontier_hashes_canonical(fd@)),
        r matches Ok(s) ==> {
            &&& s.wf()
            &&& s.leaves() == Seq::<Seq<u8>>::empty()
            &&& s.spec_base() == pf.spec_next_position()
            &&& s.frontier() == parsed_frontier_parts(*pf)
        },
        r matches Err(e) ==> e is MissingFrontier,
{
    match pf {
        ParsedFrontier::Empty => {
            let handle = orchard_tree_empty();
            Ok(OrchardTreeState { handle, base: 0, count: 0 })
        },
        ParsedFrontier::Present(fd) => {
            if !frontier_hashes_canonical_orchard_check(fd) {
                return Err(SyncError::MissingFrontier);
            }
            let mut handle = orchard_tree_empty();
            proof {
                vstd::arithmetic::power2::lemma2_to64();
            }
            let installed = orchard_tree_install_frontier(&mut handle, fd, checkpoint_id);
            proof {
                assert(installed);
            }
            Ok(OrchardTreeState { handle, base: fd.position + 1, count: 0 })
        },
    }
}

/// Seeds a fresh pool-B tree from a parsed frontier.
pub fn bootstrap_sapling_tree(pf: &ParsedFrontier, checkpoint_id: u32) -> (r: Result<
    SaplingTreeState,
    SyncError,
>)
    requires
        pf.wf(32),
    ensures
        r is Ok <==> !(pf matches ParsedFrontier::Present(fd) && !sapling_frontier_hashes_canonical(fd@)),
        r matches Ok(s) ==> {
            &&& s.wf()
            &&& s.leaves() == Seq::<Seq<u8>>::empty()
            &&& s.spec_base() == pf.spec_next_position()
            &&& s.frontier() == parsed_frontier_parts(*pf)
        },
        r matches Err(e) ==> e is MissingFrontier,
{
    match pf {
        ParsedFrontier::Empty => {
            let handle = sapling_tree_empty();
            Ok(SaplingTreeState { handle, base: 0, count: 0 })
        },
        ParsedFrontier::Present(fd) => {
            if !frontier_hashes_canonical_sapling_check(fd) {
                return Err(SyncError::MissingFrontier);
            }
            let mut handle = sapling_tree_empty();
            proof {
                vstd::arithmetic::power2::lemma2_to64();
            }
            let installed = sapling_tree_install_frontier(&mut handle, fd, checkpoint_id);
            proof {
                assert(installed);
            }
            Ok(SaplingTreeState { handle, base: fd.position + 1, count: 0 })
        },
    }
}

/// Checks canonicity of every hash of a pool-A frontier.
fn frontier_hashes_canonical_orchard_check(fd: &FrontierData) -> (r: bool)
    requires
        fd@.leaf.len() == 32,
        forall|i: int| 0 <= i < fd@.ommers.len() ==> (#[trigger] fd@.ommers[i]).len() == 32,
    ensures
        r == orchard_frontier_hashes_canonical(fd@),
{
    if !orchard_hash_check(fd.leaf.as_slice()) {
        return false;
    }
    let mut i: usize = 0;
    while i < fd.ommers.len()
        invariant
            forall|j: int| 0 <= j < fd@.ommers.len() ==> (#[trigger] fd@.ommers[j]).len() == 32,
            fd@.ommers.len() == fd.ommers@.len(),
            i <= fd.ommers@.len(),
            forall|j: int| 0 <= j < i ==> orchard_hash_canonical(#[trigger] fd@.ommers[j]),
        decreases fd.ommers@.len() - i,
    {
        proof {
            assert(fd@.ommers[i as int] == fd.ommers@[i as int]@);
        }
        if !orchard_hash_check(fd.ommers[i].as_slice()) {
            proof {
                assert(!orchard_hash_canonical(fd@.ommers[i as int]));
            }
            return false;
        }
        i = i + 1;
    }
    true
}

/// Checks canonicity of every hash of a pool-B frontier.
fn frontier_hashes_canonical_sapling_check(fd: &FrontierData) -> (r: bool)
    requires
        fd@.leaf.len() == 32,
        forall|i: int| 0 <= i < fd@.ommers.len() ==> (#[trigger] fd@.ommers[i]).len() == 32,
    ensures
        r == sapling_frontier_hashes_canonical(fd@),
{
    if !sapling_hash_check(fd.leaf.as_slice()) {
        return false;
    }
    let mut i: usize = 0;
    while i < fd.ommers.len()
        invariant
            forall|j: int| 0 <= j < fd@.ommers.len() ==> (#[trigger] fd@.ommers[j]).len() == 32,
            fd@.ommers.len() == fd.ommers@.len(),
            i <= fd.ommers@.len(),
            forall|j: int| 0 <= j < i ==> sapling_hash_canonical(#[trigger] fd@.ommers[j]),
        decreases fd.ommers@.len() - i,
    {
        proof {
            assert(fd@.ommers[i as int] == fd.ommers@[i as int]@);
        }
        if !sapling_hash_check(fd.ommers[i].as_slice()) {
            proof {
                assert(!sapling_hash_canonical(fd@.ommers[i as int]));
            }
            return false;
        }
        i = i + 1;
    }
    true
}

/// What hashing a pool-A leaf up an authentication path yields.
pub uninterp spec fn orchard_path_root_of(path: Seq<Seq<u8>>, position: nat, leaf: Seq<u8>) -> Seq<
    u8,
>;

/// Relies on `MerklePath::from_parts` (which accepts exactly 32 path
/// elements) and `MerklePath::root`: the result depends on the path,
/// the position and the leaf alone.
#[verifier::external_body]
fn orchard_merkle_path_root(path: &Vec<[u8; 32]>, position: u64, leaf: &[u8; 32]) -> (r: [u8; 32])
    requires
        path@.len() == 32,
        forall|i: int| 0 <= i < path@.len() ==> orchard_hash_canonical((#[trigger] path@[i])@),
        orchard_cmx_canonical(leaf@),
        position < 0x1_0000_0000,
    ensures
        r@ == orchard_path_root_of(path.deep_view(), position as nat, leaf@),
{
    let elems: Vec<MerkleHashOrchard> = path.iter().map(
        |e| MerkleHashOrchard::from_bytes(e).unwrap(),
    ).collect();
    let mp = incrementalmerkletree::MerklePath::<_, 32>::from_parts(elems, Position::from(position)).unwrap();
    mp.root(MerkleHashOrchard::from_cmx(&orchard::note::ExtractedNoteCommitment::from_bytes(leaf).unwrap()))
        .to_bytes()
}

/// What hashing a pool-B leaf up an authentication path yields.
pub uninterp spec fn sapling_path_root_of(path: Seq<Seq<u8>>, position: nat, leaf: Seq<u8>) -> Seq<
    u8,
>;

/// Relies on `MerklePath::from_parts` and `MerklePath::root`, as the
/// pool-A twin does.
#[verifier::external_body]
fn sapling_merkle_path_root(path: &Vec<[u8; 32]>, position: u64, leaf: &[u8; 32]) -> (r: [u8; 32])
    requires
        path@.len() == 32,
        forall|i: int| 0 <= i < path@.len() ==> sapling_hash_canonical((#[trigger] path@[i])@),
        sapling_cmu_canonical(leaf@),
        position < 0x1_0000_0000,
    ensures
        r@ == sapling_path_root_of(path.deep_view(), position as nat, leaf@),
{
    let elems: Vec<SaplingNode> = path.iter().map(|e| SaplingNode::from_bytes(*e).unwrap()).collect();
    let mp = incrementalmerkletree::MerklePath::<_, 32>::from_parts(elems, Position::from(position)).unwrap();
    mp.root(SaplingNode::from_cmu(&sapling_crypto::note::ExtractedNoteCommitment::from_bytes(leaf).unwrap()))
        .to_bytes()
}

impl OrchardTreeState {
    /// Appends a contiguous run of validated commitments, with their
    /// retention tags, to the tree.
    ///
    /// Position law: the commitments land at the next free positions
    /// `base + count, base + count + 1, ...`, in the order given — no
    /// gap, no reordering — and on success the appended leaf sequence
    /// grows by exactly `items`' commitments. Within the position
    /// bound the append always succeeds.
    pub fn extend(&mut self, items: &Vec<([u8; 32], LeafRetention)>) -> (r: Result<
        (),
        SyncError,
    >)
        requires
            old(self).wf(),
            forall|i: int|
                0 <= i < items@.len() ==> orchard_cmx_canonical((#[trigger] items@[i]).0@),
            old(self).spec_next_position() + items@.len() <= 0x1_0000_0000,
        ensures
            r is Ok,
            final(self).wf(),
            final(self).frontier() == old(self).frontier(),
            final(self).spec_base() == old(self).spec_base(),
            final(self).leaves() == old(self).leaves() + items@.map_values(
                |p: ([u8; 32], LeafRetention)| p.0@,
            ),
    {
        let ghost l0 = self.leaves();
        let ghost target = items@.map_values(|p: ([u8; 32], LeafRetention)| p.0@);
        let mut done: usize = 0;
        while done < items.len()
            invariant
                self.wf(),
                done <= items@.len(),
                self.frontier() == old(self).frontier(),
                self.spec_base() == old(self).spec_base(),
                l0 == old(self).leaves(),
                target == items@.map_values(|p: ([u8; 32], LeafRetention)| p.0@),
                self.leaves() == l0 + target.take(done as int),
                self.spec_next_position() + (items@.len() - done) <= 0x1_0000_0000,
                forall|i: int|
                    0 <= i < items@.len() ==> orchard_cmx_canonical((#[trigger] items@[i]).0@),
            decreases items@.len() - done,
        {
            let remaining = items.len() - done;
            let chunk_len = if remaining < BUILD_CHUNK {
                remaining
            } else {
                BUILD_CHUNK
            };
            let mut chunk: Vec<([u8; 32], LeafRetention)> = Vec::new();
            let mut c: usize = 0;
            while c < chunk_len
                invariant
                    done + chunk_len <= items@.len() <= usize::MAX,
                    c <= chunk_len,
                    chunk@ == items@.subrange(done as int, done + c),
                decreases chunk_len - c,
            {
                chunk.push(items[done + c]);
                c = c + 1;
                proof {
                    assert(chunk@ =~= items@.subrange(done as int, done + c));
                }
            }
            let start = self.base + self.count;
            proof {
                assert forall|i: int| 0 <= i < chunk@.len() implies orchard_cmx_canonical(
                    (#[trigger] chunk@[i]).0@,
                ) by {
                    assert(chunk@[i] == items@[done + i]);
                }
            }
            let ok = orchard_tree_insert_chunk(&mut self.handle, start, &chunk);
            proof {
                assert(ok);
            }
            self.count = self.count + chunk_len as u64;
            done = done + chunk_len;
            proof {
                assert(chunk@.map_values(|p: ([u8; 32], LeafRetention)| p.0@) =~= target.subrange(
                    done - chunk_len,
                    done as int,
                ));
                assert(self.leaves() =~= l0 + target.take(done as int));
            }
        }
        proof {
            assert(target.take(items@.len() as int) =~= target);
        }
        Ok(())
    }

    /// Computes the root over every leaf in the tree: the root value
    /// determined by the seeded frontier and the appended leaf
    /// sequence alone. It always succeeds.
    pub fn root(&self) -> (r: Result<Vec<u8>, SyncError>)
        requires
            self.wf(),
        ensures
            r is Ok,
            r matches Ok(h) ==> h@ == orchard_root_of(self.frontier(), self.leaves()),
    {
        match orchard_tree_root(&self.handle) {
            Some(h) => {
                let mut out: Vec<u8> = Vec::new();
                let mut i: usize = 0;
                while i < 32
                    invariant
                        i <= 32,
                        h@.len() == 32,
                        out@ == h@.take(i as int),
                    decreases 32 - i,
                {
                    out.push(h[i]);
                    i = i + 1;
                    proof {
                        assert(out@ =~= h@.take(i as int));
                    }
                }
                proof {
                    assert(h@.take(32) =~= h@);
                }
                Ok(out)
            },
            None => Err(SyncError::TreeInvariantBroken),
        }
    }

    /// Compares the computed root against the root the server
    /// reported.
    ///
    /// Root agreement law: the comparison succeeds exactly when the
    /// server root equals the root determined by the seeded frontier
    /// and the appended leaves; any divergence is reported as
    /// `RootMismatch` carrying both values.
    pub fn verify_root(&self, expected: &Vec<u8>) -> (r: Result<(), SyncError>)
        requires
            self.wf(),
        ensures
            r is Ok <==> expected@ == orchard_root_of(self.frontier(), self.leaves()),
            r matches Err(e) ==> {
                &&& e is RootMismatch
                &&& (e matches SyncError::RootMismatch { expected: xe, actual: xa } ==> {
                    &&& xe@ == expected@
                    &&& xa@ == orchard_root_of(self.frontier(), self.leaves())
                    &&& xa@ != expected@
                })
            },
    {
        let actual = self.root()?;
        if crate::encoding::bytes_eq(actual.as_slice(), expected.as_slice()) {
            Ok(())
        } else {
            Err(SyncError::RootMismatch { expected: expected.clone(), actual })
        }
    }

    /// Records a checkpoint at the rightmost leaf and produces the
    /// authentication path of the leaf at `position`, one 32-byte
    /// hash per level; the tree contents are unchanged.
    ///
    /// Witness soundness law: a returned path for an appended leaf —
    /// or for the frontier leaf itself — hashes up with that leaf to
    /// the root over all leaves. The path may be unavailable (a
    /// pruned unmarked leaf, a position outside the tree, a reused
    /// checkpoint identifier); then `TreeInvariantBroken` is
    /// returned.
    pub fn witness(&mut self, checkpoint_id: u32, position: u64) -> (r: Result<
        Vec<[u8; 32]>,
        SyncError,
    >)
        requires
            old(self).wf(),
        ensures
            final(self).wf(),
            final(self).frontier() == old(self).frontier(),
            final(self).spec_base() == old(self).spec_base(),
            final(self).leaves() == old(self).leaves(),
            r matches Ok(p) ==> {
                &&& p@.len() == 32
                &&& (old(self).spec_base() <= position < old(self).spec_next_position()
                    ==> orchard_path_root_of(
                    p.deep_view(),
                    position as nat,
                    old(self).leaves()[position - old(self).spec_base()],
                ) == orchard_root_of(old(self).frontier(), old(self).leaves()))
                &&& (old(self).spec_base() >= 1 && position == old(self).spec_base() - 1
                    && old(self).frontier().len() >= 2 ==> orchard_path_root_of(
                    p.deep_view(),
                    position as nat,
                    old(self).frontier()[1],
                ) == orchard_root_of(old(self).frontier(), old(self).leaves()))
            },
            r matches Err(e) ==> e is TreeInvariantBroken,
    {
        match orchard_tree_witness(&mut self.handle, checkpoint_id, position) {
            Some(p) => Ok(p),
            None => Err(SyncError::TreeInvariantBroken),
        }
    }
}

/// Hashes a pool-A leaf up an authentication path after checking that
/// every hash involved is canonical; `None` exactly when a hash is
/// not, or the path has the wrong length, or the position is out of
/// range.
pub fn orchard_path_root(path: &Vec<[u8; 32]>, position: u64, leaf: &[u8; 32]) -> (r: Option<
    Vec<u8>,
>)
    ensures
        r is Some <==> {
            &&& path@.len() == 32
            &&& position < 0x1_0000_0000
            &&& orchard_cmx_canonical(leaf@)
            &&& forall|i: int| 0 <= i < path@.len() ==> orchard_hash_canonical((#[trigger] path@[i])@)
        },
        r matches Some(h) ==> h@ == orchard_path_root_of(path.deep_view(), position as nat, leaf@),
{
    if path.len() != 32 {
        return None;
    }
    if position >= 0x1_0000_0000 {
        return None;
    }
    if !crate::crypto::orchard_cmx_check(leaf.as_slice()) {
        return None;
    }
    let mut i: usize = 0;
    while i < path.len()
        invariant
            path@.len() == 32,
            i <= 32,
            forall|j: int| 0 <= j < i ==> orchard_hash_canonical((#[trigger] path@[j])@),
        decreases path@.len() - i,
    {
        if !orchard_hash_check(path[i].as_slice()) {
            return None;
        }
        i = i + 1;
    }
    let root = orchard_merkle_path_root(path, position, leaf);
    let mut out: Vec<u8> = Vec::new();
    let mut k: usize = 0;
    while k < 32
        invariant
            k <= 32,
            root@.len() == 32,
            out@ == root@.take(k as int),
        decreases 32 - k,
    {
        out.push(root[k]);
        k = k + 1;
        proof {
            assert(out@ =~= root@.take(k as int));
        }
    }
    proof {
        assert(root@.take(32) =~= root@);
    }
    Some(out)
}

/// Root determinism law: the root a pool-A tree reports depends on
/// the seeded frontier and the appended leaf sequence alone, so two
/// trees fed the same leaves from the same frontier — whatever the
/// batching — report the same root.
pub proof fn lemma_orchard_root_determined(s1: OrchardTreeState, s2: OrchardTreeState)
    requires
        s1.frontier() == s2.frontier(),
        s1.leaves() == s2.leaves(),
    ensures
        orchard_root_of(s1.frontier(), s1.leaves()) == orchard_root_of(
            s2.frontier(),
            s2.leaves(),
        ),
{
}

/// Position monotonicity law: appended leaf `i` of a pool-A tree sits
/// at position `base + i`, so the positions of successive leaves are
/// strictly increasing with neither gap nor repetition.
pub proof fn lemma_orchard_positions_contiguous(s: OrchardTreeState, i: int, j: int)
    requires
        0 <= i < j < s.leaves().len(),
    ensures
        s.spec_base() + i < s.spec_base() + j,
        s.spec_base() + j < s.spec_next_position(),
{
}

impl SaplingTreeState {
    /// Appends a contiguous run of validated commitments, with their
    /// retention tags, to the tree.
    ///
    /// Position law: the commitments land at the next free positions
    /// `base + count, base + count + 1, ...`, in the order given — no
    /// gap, no reordering — and on success the appended leaf sequence
    /// grows by exactly `items`' commitments. Within the position
    /// bound the append always succeeds.
    pub fn extend(&mut self, items: &Vec<([u8; 32], LeafRetention)>) -> (r: Result<
        (),
        SyncError,
    >)
        requires
            old(self).wf(),
            forall|i: int|
                0 <= i < items@.len() ==> sapling_cmu_canonical((#[trigger] items@[i]).0@),
            old(self).spec_next_position() + items@.len() <= 0x1_0000_0000,
        ensures
            r is Ok,
            final(self).wf(),
            final(self).frontier() == old(self).frontier(),
            final(self).spec_base() == old(self).spec_base(),
            final(self).leaves() == old(self).leaves() + items@.map_values(
                |p: ([u8; 32], LeafRetention)| p.0@,
            ),
    {
        let ghost l0 = self.leaves();
        let ghost target = items@.map_values(|p: ([u8; 32], LeafRetention)| p.0@);
        let mut done: usize = 0;
        while done < items.len()
            invariant
                self.wf(),
                done <= items@.len(),
                self.frontier() == old(self).frontier(),
                self.spec_base() == old(self).spec_base(),
                l0 == old(self).leaves(),
                target == items@.map_values(|p: ([u8; 32], LeafRetention)| p.0@),
                self.leaves() == l0 + target.take(done as int),
                self.spec_next_position() + (items@.len() - done) <= 0x1_0000_0000,
                forall|i: int|
                    0 <= i < items@.len() ==> sapling_cmu_canonical((#[trigger] items@[i]).0@),
            decreases items@.len() - done,
        {
            let remaining = items.len() - done;
            let chunk_len = if remaining < BUILD_CHUNK {
                remaining
            } else {
                BUILD_CHUNK
            };
            let mut chunk: Vec<([u8; 32], LeafRetention)> = Vec::new();
            let mut c: usize = 0;
            while c < chunk_len
                invariant
                    done + chunk_len <= items@.len() <= usize::MAX,
                    c <= chunk_len,
                    chunk@ == items@.subrange(done as int, done + c),
                decreases chunk_len - c,
            {
                chunk.push(items[done + c]);
                c = c + 1;
                proof {
                    assert(chunk@ =~= items@.subrange(done as int, done + c));
                }
            }
            let start = self.base + self.count;
            proof {
                assert forall|i: int| 0 <= i < chunk@.len() implies sapling_cmu_canonical(
                    (#[trigger] chunk@[i]).0@,
                ) by {
                    assert(chunk@[i] == items@[done + i]);
                }
            }
            let ok = sapling_tree_insert_chunk(&mut self.handle, start, &chunk);
            proof {
                assert(ok);
            }
            self.count = self.count + chunk_len as u64;
            done = done + chunk_len;
            proof {
                assert(chunk@.map_values(|p: ([u8; 32], LeafRetention)| p.0@) =~= target.subrange(
                    done - chunk_len,
                    done as int,
                ));
                assert(self.leaves() =~= l0 + target.take(done as int));
            }
        }
        proof {
            assert(target.take(items@.len() as int) =~= target);
        }
        Ok(())
    }

    /// Computes the root over every leaf in the tree: the root value
    /// determined by the seeded frontier and the appended leaf
    /// sequence alone. It always succeeds.
    pub fn root(&self) -> (r: Result<Vec<u8>, SyncError>)
        requires
            self.wf(),
        ensures
            r is Ok,
            r matches Ok(h) ==> h@ == sapling_root_of(self.frontier(), self.leaves()),
    {
        match sapling_tree_root(&self.handle) {
            Some(h) => {
                let mut out: Vec<u8> = Vec::new();
                let mut i: usize = 0;
                while i < 32
                    invariant
                        i <= 32,
                        h@.len() == 32,
                        out@ == h@.take(i as int),
                    decreases 32 - i,
                {
                    out.push(h[i]);
                    i = i + 1;
                    proof {
                        assert(out@ =~= h@.take(i as int));
                    }
                }
                proof {
                    assert(h@.take(32) =~= h@);
                }
                Ok(out)
            },
            None => Err(SyncError::TreeInvariantBroken),
        }
    }

    /// Compares the computed root against the root the server
    /// reported.
    ///
    /// Root agreement law: the comparison succeeds exactly when the
    /// server root equals the root determined by the seeded frontier
    /// and the appended leaves; any divergence is reported as
    /// `RootMismatch` carrying both values.
    pub fn verify_root(&self, expected: &Vec<u8>) -> (r: Result<(), SyncError>)
        requires
            self.wf(),
        ensures
            r is Ok <==> expected@ == sapling_root_of(self.frontier(), self.leaves()),
            r matches Err(e) ==> {
                &&& e is RootMismatch
                &&& (e matches SyncError::RootMismatch { expected: xe, actual: xa } ==> {
                    &&& xe@ == expected@
                    &&& xa@ == sapling_root_of(self.frontier(), self.leaves())
                    &&& xa@ != expected@
                })
            },
    {
        let actual = self.root()?;
        if crate::encoding::bytes_eq(actual.as_slice(), expected.as_slice()) {
            Ok(())
        } else {
            Err(SyncError::RootMismatch { expected: expected.clone(), actual })
        }
    }

    /// Records a checkpoint at the rightmost leaf and produces the
    /// authentication path of the leaf at `position`, one 32-byte
    /// hash per level; the tree contents are unchanged.
    ///
    /// Witness soundness law: a returned path for an appended leaf —
    /// or for the frontier leaf itself — hashes up with that leaf to
    /// the root over all leaves. The path may be unavailable (a
    /// pruned unmarked leaf, a position outside the tree, a reused
    /// checkpoint identifier); then `TreeInvariantBroken` is
    /// returned.
    pub fn witness(&mut self, checkpoint_id: u32, position: u64) -> (r: Result<
        Vec<[u8; 32]>,
        SyncError,
    >)
        requires
            old(self).wf(),
        ensures
            final(self).wf(),
            final(self).frontier() == old(self).frontier(),
            final(self).spec_base() == old(self).spec_base(),
            final(self).leaves() == old(self).leaves(),
            r matches Ok(p) ==> {
                &&& p@.len() == 32
                &&& (old(self).spec_base() <= position < old(self).spec_next_position()
                    ==> sapling_path_root_of(
                    p.deep_view(),
                    position as nat,
                    old(self).leaves()[position - old(self).spec_base()],
                ) == sapling_root_of(old(self).frontier(), old(self).leaves()))
                &&& (old(self).spec_base() >= 1 && position == old(self).spec_base() - 1
                    && old(self).frontier().len() >= 2 ==> sapling_path_root_of(
                    p.deep_view(),
                    position as nat,
                    old(self).frontier()[1],
                ) == sapling_root_of(old(self).frontier(), old(self).leaves()))
            },
            r matches Err(e) ==> e is TreeInvariantBroken,
    {
        match sapling_tree_witness(&mut self.handle, checkpoint_id, position) {
            Some(p) => Ok(p),
            None => Err(SyncError::TreeInvariantBroken),
        }
    }
}

/// Hashes a pool-B leaf up an authentication path after checking that
/// every hash involved is canonical; `None` exactly when a hash is
/// not, or the path has the wrong length, or the position is out of
/// range.
pub fn sapling_path_root(path: &Vec<[u8; 32]>, position: u64, leaf: &[u8; 32]) -> (r: Option<
    Vec<u8>,
>)
    ensures
        r is Some <==> {
            &&& path@.len() == 32
            &&& position < 0x1_0000_0000
            &&& sapling_cmu_canonical(leaf@)
            &&& forall|i: int| 0 <= i < path@.len() ==> sapling_hash_canonical((#[trigger] path@[i])@)
        },
        r matches Some(h) ==> h@ == sapling_path_root_of(path.deep_view(), position as nat, leaf@),
{
    if path.len() != 32 {
        return None;
    }
    if position >= 0x1_0000_0000 {
        return None;
    }
    if !crate::crypto::sapling_cmu_check(leaf.as_slice()) {
        return None;
    }
    let mut i: usize = 0;
    while i < path.len()
        invariant
            path@.len() == 32,
            i <= 32,
            forall|j: int| 0 <= j < i ==> sapling_hash_canonical((#[trigger] path@[j])@),
        decreases path@.len() - i,
    {
        if !sapling_hash_check(path[i].as_slice()) {
            return None;
        }
        i = i + 1;
    }
    let root = sapling_merkle_path_root(path, position, leaf);
    let mut out: Vec<u8> = Vec::new();
    let mut k: usize = 0;
    while k < 32
        invariant
            k <= 32,
            root@.len() == 32,
            out@ == root@.take(k as int),
        decreases 32 - k,
    {
        out.push(root[k]);
        k = k + 1;
        proof {
            assert(out@ =~= root@.take(k as int));
        }
    }
    proof {
        assert(root@.take(32) =~= root@);
    }
    Some(out)
}

/// Root determinism law: the root a pool-B tree reports depends on
/// the seeded frontier and the appended leaf sequence alone, so two
/// trees fed the same leaves from the same frontier — whatever the
/// batching — report the same root.
pub proof fn lemma_sapling_root_determined(s1: SaplingTreeState, s2: SaplingTreeState)
    requires
        s1.frontier() == s2.frontier(),
        s1.leaves() == s2.leaves(),
    ensures
        sapling_root_of(s1.frontier(), s1.leaves()) == sapling_root_of(
            s2.frontier(),
            s2.leaves(),
        ),
{
}

/// Position monotonicity law: appended leaf `i` of a pool-B tree sits
/// at position `base + i`, so the positions of successive leaves are
/// strictly increasing with neither gap nor repetition.
pub proof fn lemma_sapling_positions_contiguous(s: SaplingTreeState, i: int, j: int)
    requires
        0 <= i < j < s.leaves().len(),
    ensures
        s.spec_base() + i < s.spec_base() + j,
        s.spec_base() + j < s.spec_next_position(),
{
}

/// The appended pool-A leaves always fit the tree's position space.
pub proof fn lemma_orchard_leaf_capacity(s: OrchardTreeState)
    requires
        s.wf(),
    ensures
        s.spec_base() + s.leaves().len() <= 0x1_0000_0000,
{
}

/// The appended pool-B leaves always fit the tree's position space.
pub proof fn lemma_sapling_leaf_capacity(s: SaplingTreeState)
    requires
        s.wf(),
    ensures
        s.spec_base() + s.leaves().len() <= 0x1_0000_0000,
{
}

/// Relies on `Frontier::from_parts` and `Frontier::root`, which hashes
/// the frontier against empty subtrees up to the tree depth — the
/// same root the sharded tree reports when seeded with these parts
/// and extended by nothing.
#[verifier::external_body]
fn orchard_frontier_root_raw(fd: &FrontierData) -> (r: [u8; 32])
    requires
        fd@.leaf.len() == 32,
        orchard_hash_canonical(fd@.leaf),
        forall|i: int|
            0 <= i < fd@.ommers.len() ==> (#[trigger] fd@.ommers[i]).len() == 32
                && orchard_hash_canonical(fd@.ommers[i]),
        fd@.ommers.len() == crate::encoding::pop_count(fd.position as nat),
        fd.position < 0x1_0000_0000,
    ensures
        r@ == orchard_root_of(frontier_parts(fd@), Seq::<Seq<u8>>::empty()),
{
    let leaf = MerkleHashOrchard::from_bytes(fd.leaf.as_slice().try_into().unwrap()).unwrap();
    let os: Vec<MerkleHashOrchard> = fd.ommers.iter().map(
        |o| MerkleHashOrchard::from_bytes(o.as_slice().try_into().unwrap()).unwrap(),
    ).collect();
    Frontier::<_, 32>::from_parts(Position::from(fd.position), leaf, os).unwrap().root().to_bytes()
}

/// Relies on `Frontier::empty` and `Frontier::root`: the root of the
/// tree with no leaves at all.
#[verifier::external_body]
fn orchard_empty_root_raw() -> (r: [u8; 32])
    ensures
        r@ == orchard_root_of(Seq::<Seq<u8>>::empty(), Seq::<Seq<u8>>::empty()),
{
    Frontier::<MerkleHashOrchard, 32>::empty().root().to_bytes()
}

/// Relies on `Frontier::from_parts` and `Frontier::root`, as the
/// pool-A twin does.
#[verifier::external_body]
fn sapling_frontier_root_raw(fd: &FrontierData) -> (r: [u8; 32])
    requires
        fd@.leaf.len() == 32,
        sapling_hash_canonical(fd@.leaf),
        forall|i: int|
            0 <= i < fd@.ommers.len() ==> (#[trigger] fd@.ommers[i]).len() == 32
                && sapling_hash_canonical(fd@.ommers[i]),
        fd@.ommers.len() == crate::encoding::pop_count(fd.position as nat),
        fd.position < 0x1_0000_0000,
    ensures
        r@ == sapling_root_of(frontier_parts(fd@), Seq::<Seq<u8>>::empty()),
{
    let leaf = SaplingNode::from_bytes(fd.leaf.as_slice().try_into().unwrap()).unwrap();
    let os: Vec<SaplingNode> = fd.ommers.iter().map(
        |o| SaplingNode::from_bytes(o.as_slice().try_into().unwrap()).unwrap(),
    ).collect();
    Frontier::<_, 32>::from_parts(Position::from(fd.position), leaf, os).unwrap().root().to_bytes()
}

/// Relies on `Frontier::empty` and `Frontier::root`.
#[verifier::external_body]
fn sapling_empty_root_raw() -> (r: [u8; 32])
    ensures
        r@ == sapling_root_of(Seq::<Seq<u8>>::empty(), Seq::<Seq<u8>>::empty()),
{
    Frontier::<SaplingNode, 32>::empty().root().to_bytes()
}

/// The root a server-reported pool-A frontier stands for: what the
/// engine's own tree will report once it has ingested exactly the
/// leaves that frontier summarizes. Non-canonical hashes are refused
/// as `MissingFrontier`.
pub fn orchard_frontier_root(pf: &ParsedFrontier) -> (r: Result<Vec<u8>, SyncError>)
    requires
        pf.wf(32),
    ensures
        r matches Ok(h) ==> h@ == orchard_root_of(
            parsed_frontier_parts(*pf),
            Seq::<Seq<u8>>::empty(),
        ),
        r matches Err(e) ==> e is MissingFrontier,
        r is Err <==> (pf matches ParsedFrontier::Present(fd)
            && !orchard_frontier_hashes_canonical(fd@)),
{
    let root: [u8; 32] = match pf {
        ParsedFrontier::Empty => orchard_empty_root_raw(),
        ParsedFrontier::Present(fd) => {
            if !frontier_hashes_canonical_orchard_check(fd) {
                return Err(SyncError::MissingFrontier);
            }
            proof {
                vstd::arithmetic::power2::lemma2_to64();
            }
            orchard_frontier_root_raw(fd)
        },
    };
    let mut out: Vec<u8> = Vec::new();
    let mut i: usize = 0;
    while i < 32
        invariant
            i <= 32,
            root@.len() == 32,
            out@ == root@.take(i as int),
        decreases 32 - i,
    {
        out.push(root[i]);
        i = i + 1;
        proof {
            assert(out@ =~= root@.take(i as int));
        }
    }
    proof {
        assert(root@.take(32) =~= root@);
    }
    Ok(out)
}

/// The root a server-reported pool-B frontier stands for.
pub fn sapling_frontier_root(pf: &ParsedFrontier) -> (r: Result<Vec<u8>, SyncError>)
    requires
        pf.wf(32),
    ensures
        r matches Ok(h) ==> h@ == sapling_root_of(
            parsed_frontier_parts(*pf),
            Seq::<Seq<u8>>::empty(),
        ),
        r matches Err(e) ==> e is MissingFrontier,
        r is Err <==> (pf matches ParsedFrontier::Present(fd)
            && !sapling_frontier_hashes_canonical(fd@)),
{
    let root: [u8; 32] = match pf {
        ParsedFrontier::Empty => sapling_empty_root_raw(),
        ParsedFrontier::Present(fd) => {
            if !frontier_hashes_canonical_sapling_check(fd) {
                return Err(SyncError::MissingFrontier);
            }
            proof {
                vstd::arithmetic::power2::lemma2_to64();
            }
            sapling_frontier_root_raw(fd)
        },
    };
    let mut out: Vec<u8> = Vec::new();
    let mut i: usize = 0;
    while i < 32
        invariant
            i <= 32,
            root@.len() == 32,
            out@ == root@.take(i as int),
        decreases 32 - i,
    {
        out.push(root[i]);
        i = i + 1;
        proof {
            assert(out@ =~= root@.take(i as int));
        }
    }
    proof {
        assert(root@.take(32) =~= root@);
    }
    Ok(out)
}

} // verus!
