//! The batch extractor: explodes an accumulated batch of compact blocks
//! into per-pool ordered lists of `(record, txid)` pairs.
//!
//! Blocks are exploded in height order, transactions in index order and
//! records in their in-transaction order, so the concatenation of the
//! per-pool lists over successive batches is the canonical leaf
//! sequence of the range. A transaction whose record count for a pool
//! exceeds the spam filter limit contributes nothing for that pool; the
//! other pool judges the same transaction by its own count alone.

use vstd::prelude::*;
use vstd::seq_lib::lemma_flatten_concat;

use crate::SyncError;
use crate::compact::{ActionView, BlockView, OutputView, TxView};
use crate::compact::{CheckedAction, CheckedOutput, CompactBlock, CompactTx};
use crate::params::ShieldedPool;

verus! {

/// Whether the spam filter keeps this transaction's pool-A actions.
pub open spec fn tx_keeps_actions(tx: TxView, limit: nat) -> bool {
    tx.actions.len() <= limit
}

/// Whether the spam filter keeps this transaction's pool-B outputs.
pub open spec fn tx_keeps_outputs(tx: TxView, limit: nat) -> bool {
    tx.outputs.len() <= limit
}

/// The `(action, txid)` pairs one transaction contributes for pool A.
pub open spec fn tx_action_entries(tx: TxView, limit: nat) -> Seq<(ActionView, Seq<u8>)> {
    if tx_keeps_actions(tx, limit) {
        tx.actions.map_values(|a: ActionView| (a, tx.hash))
    } else {
        Seq::empty()
    }
}

/// The `(output, txid)` pairs one transaction contributes for pool B.
pub open spec fn tx_output_entries(tx: TxView, limit: nat) -> Seq<(OutputView, Seq<u8>)> {
    if tx_keeps_outputs(tx, limit) {
        tx.outputs.map_values(|o: OutputView| (o, tx.hash))
    } else {
        Seq::empty()
    }
}

/// The pool-A pairs one block contributes, in transaction order.
pub open spec fn block_action_entries(b: BlockView, limit: nat) -> Seq<(ActionView, Seq<u8>)> {
    b.vtx.flat_map(|tx: TxView| tx_action_entries(tx, limit))
}

/// The pool-B pairs one block contributes, in transaction order.
pub open spec fn block_output_entries(b: BlockView, limit: nat) -> Seq<(OutputView, Seq<u8>)> {
    b.vtx.flat_map(|tx: TxView| tx_output_entries(tx, limit))
}

/// The pool-A pairs a batch of blocks contributes, in block order:
/// the canonical pool-A leaf sequence of the batch.
pub open spec fn batch_action_entries(bs: Seq<BlockView>, limit: nat) -> Seq<
    (ActionView, Seq<u8>),
> {
    bs.flat_map(|b: BlockView| block_action_entries(b, limit))
}

/// The pool-B pairs a batch of blocks contributes, in block order.
pub open spec fn batch_output_entries(bs: Seq<BlockView>, limit: nat) -> Seq<
    (OutputView, Seq<u8>),
> {
    bs.flat_map(|b: BlockView| block_output_entries(b, limit))
}

/// The views of a sequence of blocks.
pub open spec fn block_views(blocks: Seq<CompactBlock>) -> Seq<BlockView> {
    blocks.map_values(|b: CompactBlock| b@)
}

/// Every kept action of this transaction passes wire validation.
pub open spec fn tx_actions_valid(tx: TxView, limit: nat) -> bool {
    tx_keeps_actions(tx, limit) ==> forall|k: int|
        0 <= k < tx.actions.len() ==> (#[trigger] tx.actions[k]).valid()
}

/// Every kept output of this transaction passes wire validation.
pub open spec fn tx_outputs_valid(tx: TxView, limit: nat) -> bool {
    tx_keeps_outputs(tx, limit) ==> forall|k: int|
        0 <= k < tx.outputs.len() ==> (#[trigger] tx.outputs[k]).valid()
}

/// Every kept action of the batch passes wire validation.
pub open spec fn batch_actions_valid(bs: Seq<BlockView>, limit: nat) -> bool {
    forall|i: int, j: int|
        0 <= i < bs.len() && 0 <= j < bs[i].vtx.len() ==> tx_actions_valid(
            #[trigger] bs[i].vtx[j],
            limit,
        )
}

/// Every kept output of the batch passes wire validation.
pub open spec fn batch_outputs_valid(bs: Seq<BlockView>, limit: nat) -> bool {
    forall|i: int, j: int|
        0 <= i < bs.len() && 0 <= j < bs[i].vtx.len() ==> tx_outputs_valid(
            #[trigger] bs[i].vtx[j],
            limit,
        )
}

/// Row-by-row agreement of a record vector and its parallel txid
/// vector with a sequence of `(record view, txid)` pairs.
pub open spec fn rows_match<R: View>(
    rows: Seq<R>,
    txids: Seq<Vec<u8>>,
    target: Seq<(R::V, Seq<u8>)>,
) -> bool {
    &&& rows.len() == target.len()
    &&& txids.len() == target.len()
    &&& forall|i: int|
        0 <= i < target.len() ==> (#[trigger] rows[i])@ == target[i].0 && txids[i]@ == target[i].1
}

/// Rows accumulated in two stages match the concatenation of the two
/// stage targets.
pub proof fn lemma_rows_extend<R: View>(
    pre: Seq<R>,
    pret: Seq<Vec<u8>>,
    post: Seq<R>,
    postt: Seq<Vec<u8>>,
    base: int,
    t1: Seq<(R::V, Seq<u8>)>,
    t2: Seq<(R::V, Seq<u8>)>,
)
    requires
        0 <= base <= pre.len() <= post.len(),
        pre.len() == pret.len(),
        post.len() == postt.len(),
        post.take(pre.len() as int) == pre,
        postt.take(pret.len() as int) == pret,
        rows_match(pre.skip(base), pret.skip(base), t1),
        rows_match(post.skip(pre.len() as int), postt.skip(pret.len() as int), t2),
    ensures
        post.take(base) == pre.take(base),
        rows_match(post.skip(base), postt.skip(base), t1 + t2),
{
    let mid = pre.len() as int;
    assert(post.take(base) =~= pre.take(base)) by {
        assert forall|x: int| 0 <= x < base implies post.take(base)[x] == pre.take(base)[x] by {
            assert(post.take(mid)[x] == pre[x]);
        }
    }
    assert(post.skip(base).len() == t1.len() + t2.len());
    assert forall|i: int| 0 <= i < t1.len() + t2.len() implies (#[trigger] post.skip(base)[i])@ == (
    t1 + t2)[i].0 && postt.skip(base)[i]@ == (t1 + t2)[i].1 by {
        assert(post.skip(base)[i] == post[base + i]);
        assert(postt.skip(base)[i] == postt[base + i]);
        if i < t1.len() {
            assert(post.take(mid)[base + i] == pre[base + i]);
            assert(postt.take(mid)[base + i] == pret[base + i]);
            assert(pre.skip(base)[i] == pre[base + i]);
            assert(pret.skip(base)[i] == pret[base + i]);
        } else {
            assert(post.skip(mid)[base + i - mid] == post[base + i]);
            assert(postt.skip(mid)[base + i - mid] == postt[base + i]);
        }
    }
}

/// The exploded contents of one batch: the pool-A and pool-B records in
/// canonical order, each paired (by index) with the hash of the
/// transaction that carries it.
#[derive(Debug)]
pub struct BatchContents {
    pub actions: Vec<CheckedAction>,
    pub action_txids: Vec<Vec<u8>>,
    pub outputs: Vec<CheckedOutput>,
    pub output_txids: Vec<Vec<u8>>,
}

impl BatchContents {
    /// Each record list is paired index-by-index with its txid list.
    pub open spec fn wf(self) -> bool {
        &&& self.actions@.len() == self.action_txids@.len()
        &&& self.outputs@.len() == self.output_txids@.len()
    }
}

/// Validates every kept record of the batch for the selected pools.
///
/// Returns `Ok` exactly when every action (if pool A is scanned) and
/// every output (if pool B is scanned) that the spam filter keeps
/// passes wire validation; the first failure aborts the whole batch.
pub fn check_batch(blocks: &Vec<CompactBlock>, pool: ShieldedPool, spam_filter_limit: u32) -> (r:
    Result<(), SyncError>)
    ensures
        r is Ok <==> {
            &&& (pool is Orchard || pool is Both) ==> batch_actions_valid(
                block_views(blocks@),
                spam_filter_limit as nat,
            )
            &&& (pool is Sapling || pool is Both) ==> batch_outputs_valid(
                block_views(blocks@),
                spam_filter_limit as nat,
            )
        },
        r matches Err(e) ==> e is MalformedCompactRecord,
{
    let ghost bs = block_views(blocks@);
    let ghost limit = spam_filter_limit as nat;
    let scan_a = pool.sync_orchard();
    let scan_b = pool.sync_sapling();
    let mut i: usize = 0;
    while i < blocks.len()
        invariant
            bs == block_views(blocks@),
            limit == spam_filter_limit as nat,
            scan_a == (pool is Orchard || pool is Both),
            scan_b == (pool is Sapling || pool is Both),
            i <= blocks@.len(),
            bs.len() == blocks@.len(),
            forall|i2: int, j2: int|
                0 <= i2 < i && 0 <= j2 < bs[i2].vtx.len() ==> {
                    &&& (scan_a ==> tx_actions_valid(#[trigger] bs[i2].vtx[j2], limit))
                    &&& (scan_b ==> tx_outputs_valid(bs[i2].vtx[j2], limit))
                },
        decreases blocks@.len() - i,
    {
        let block = &blocks[i];
        let mut j: usize = 0;
        while j < block.vtx.len()
            invariant
                bs == block_views(blocks@),
                limit == spam_filter_limit as nat,
                scan_a == (pool is Orchard || pool is Both),
                scan_b == (pool is Sapling || pool is Both),
                i < blocks@.len(),
                bs.len() == blocks@.len(),
                block == blocks@[i as int],
                j <= block.vtx@.len(),
                bs[i as int].vtx.len() == block.vtx@.len(),
                forall|i2: int, j2: int|
                    0 <= i2 < i && 0 <= j2 < bs[i2].vtx.len() ==> {
                        &&& (scan_a ==> tx_actions_valid(#[trigger] bs[i2].vtx[j2], limit))
                        &&& (scan_b ==> tx_outputs_valid(bs[i2].vtx[j2], limit))
                    },
                forall|j2: int|
                    0 <= j2 < j ==> {
                        &&& (scan_a ==> tx_actions_valid(#[trigger] bs[i as int].vtx[j2], limit))
                        &&& (scan_b ==> tx_outputs_valid(bs[i as int].vtx[j2], limit))
                    },
            decreases block.vtx@.len() - j,
        {
            let tx = &block.vtx[j];
            proof {
                assert(bs[i as int].vtx[j as int] == tx@);
            }
            if scan_a {
                match check_tx_actions(tx, spam_filter_limit) {
                    Ok(()) => (),
                    Err(e) => {
                        proof {
                            assert(!tx_actions_valid(bs[i as int].vtx[j as int], limit));
                        }
                        return Err(e);
                    },
                }
            }
            if scan_b {
                match check_tx_outputs(tx, spam_filter_limit) {
                    Ok(()) => (),
                    Err(e) => {
                        proof {
                            assert(!tx_outputs_valid(bs[i as int].vtx[j as int], limit));
                        }
                        return Err(e);
                    },
                }
            }
            j = j + 1;
        }
        i = i + 1;
    }
    Ok(())
}

/// One step of a flat map: extending the prefix by one element appends
/// that element's image.
pub proof fn lemma_flat_map_take_step<A, B>(s: Seq<A>, f: spec_fn(A) -> Seq<B>, i: int)
    requires
        0 <= i < s.len(),
    ensures
        s.take(i + 1).flat_map(f) == s.take(i).flat_map(f) + f(s[i]),
{
    assert(s.take(i + 1).map_values(f) =~= s.take(i).map_values(f).push(f(s[i])));
    s.take(i).map_values(f).lemma_flatten_push(f(s[i]));
}

/// A flat map over a concatenation is the concatenation of the flat
/// maps.
pub proof fn lemma_flat_map_concat<A, B>(s1: Seq<A>, s2: Seq<A>, f: spec_fn(A) -> Seq<B>)
    ensures
        (s1 + s2).flat_map(f) == s1.flat_map(f) + s2.flat_map(f),
{
    assert((s1 + s2).map_values(f) =~= s1.map_values(f) + s2.map_values(f));
    lemma_flatten_concat(s1.map_values(f), s2.map_values(f));
}

/// Appends the kept actions of one transaction, each paired with the
/// transaction hash, to the accumulated rows.
fn append_tx_actions(
    acts: &mut Vec<CheckedAction>,
    txids: &mut Vec<Vec<u8>>,
    tx: &CompactTx,
    spam_filter_limit: u32,
)
    requires
        tx_actions_valid(tx@, spam_filter_limit as nat),
        old(acts)@.len() == old(txids)@.len(),
    ensures
        final(acts)@.len() == final(txids)@.len(),
        final(acts)@.len() >= old(acts)@.len(),
        final(acts)@.take(old(acts)@.len() as int) == old(acts)@,
        final(txids)@.take(old(txids)@.len() as int) == old(txids)@,
        rows_match(
            final(acts)@.skip(old(acts)@.len() as int),
            final(txids)@.skip(old(txids)@.len() as int),
            tx_action_entries(tx@, spam_filter_limit as nat),
        ),
        forall|i: int|
            old(acts)@.len() <= i < final(acts)@.len() ==> (#[trigger] final(acts)@[i])@.valid(),
{
    let ghost base = old(acts)@.len() as int;
    if tx.actions.len() > spam_filter_limit as usize {
        proof {
            assert(acts@.take(base) =~= acts@);
            assert(txids@.take(base) =~= txids@);
            assert(acts@.skip(base) =~= Seq::<CheckedAction>::empty());
            assert(txids@.skip(base) =~= Seq::<Vec<u8>>::empty());
        }
        return ;
    }
    let ghost target = tx_action_entries(tx@, spam_filter_limit as nat);
    let ghost acts0 = old(acts)@;
    let ghost txids0 = old(txids)@;
    let mut k: usize = 0;
    while k < tx.actions.len()
        invariant
            tx_actions_valid(tx@, spam_filter_limit as nat),
            tx@.actions.len() <= spam_filter_limit as nat,
            target == tx_action_entries(tx@, spam_filter_limit as nat),
            k <= tx.actions@.len(),
            tx@.actions.len() == tx.actions@.len(),
            acts@.len() == base + k,
            txids@.len() == base + k,
            acts@.take(base) == acts0,
            txids@.take(base) == txids0,
            base == acts0.len() && base == txids0.len(),
            forall|r: int|
                0 <= r < k ==> (#[trigger] acts@[base + r])@ == target[r].0 && txids@[base + r]@
                    == target[r].1,
            forall|i: int| base <= i < acts@.len() ==> (#[trigger] acts@[i])@.valid(),
        decreases tx.actions@.len() - k,
    {
        proof {
            assert(tx@.actions[k as int] == tx.actions@[k as int]@);
        }
        let ca = tx.actions[k].to_checked();
        acts.push(ca);
        txids.push(tx.hash.clone());
        proof {
            assert(acts@.take(base) =~= acts0);
            assert(txids@.take(base) =~= txids0);
            assert(target[k as int].0 == tx@.actions[k as int]);
            assert(target[k as int].1 == tx@.hash);
        }
        k = k + 1;
    }
    proof {
        assert(rows_match(acts@.skip(base), txids@.skip(base), target)) by {
            assert(acts@.skip(base).len() == target.len());
            assert forall|i: int| 0 <= i < target.len() implies (#[trigger] acts@.skip(base)[i])@
                == target[i].0 && txids@.skip(base)[i]@ == target[i].1 by {
                assert(acts@.skip(base)[i] == acts@[base + i]);
                assert(txids@.skip(base)[i] == txids@[base + i]);
            }
        }
    }
}

/// Appends the kept outputs of one transaction, each paired with the
/// transaction hash, to the accumulated rows.
fn append_tx_outputs(
    outs: &mut Vec<CheckedOutput>,
    txids: &mut Vec<Vec<u8>>,
    tx: &CompactTx,
    spam_filter_limit: u32,
)
    requires
        tx_outputs_valid(tx@, spam_filter_limit as nat),
        old(outs)@.len() == old(txids)@.len(),
    ensures
        final(outs)@.len() == final(txids)@.len(),
        final(outs)@.len() >= old(outs)@.len(),
        final(outs)@.take(old(outs)@.len() as int) == old(outs)@,
        final(txids)@.take(old(txids)@.len() as int) == old(txids)@,
        rows_match(
            final(outs)@.skip(old(outs)@.len() as int),
            final(txids)@.skip(old(txids)@.len() as int),
            tx_output_entries(tx@, spam_filter_limit as nat),
        ),
        forall|i: int|
            old(outs)@.len() <= i < final(outs)@.len() ==> (#[trigger] final(outs)@[i])@.valid(),
{
    let ghost base = old(outs)@.len() as int;
    if tx.outputs.len() > spam_filter_limit as usize {
        proof {
            assert(outs@.take(base) =~= outs@);
            assert(txids@.take(base) =~= txids@);
            assert(outs@.skip(base) =~= Seq::<CheckedOutput>::empty());
            assert(txids@.skip(base) =~= Seq::<Vec<u8>>::empty());
        }
        return ;
    }
    let ghost target = tx_output_entries(tx@, spam_filter_limit as nat);
    let ghost outs0 = old(outs)@;
    let ghost txids0 = old(txids)@;
    let mut k: usize = 0;
    while k < tx.outputs.len()
        invariant
            tx_outputs_valid(tx@, spam_filter_limit as nat),
            tx@.outputs.len() <= spam_filter_limit as nat,
            target == tx_output_entries(tx@, spam_filter_limit as nat),
            k <= tx.outputs@.len(),
            tx@.outputs.len() == tx.outputs@.len(),
            outs@.len() == base + k,
            txids@.len() == base + k,
            outs@.take(base) == outs0,
            txids@.take(base) == txids0,
            base == outs0.len() && base == txids0.len(),
            forall|r: int|
                0 <= r < k ==> (#[trigger] outs@[base + r])@ == target[r].0 && txids@[base + r]@
                    == target[r].1,
            forall|i: int| base <= i < outs@.len() ==> (#[trigger] outs@[i])@.valid(),
        decreases tx.outputs@.len() - k,
    {
        proof {
            assert(tx@.outputs[k as int] == tx.outputs@[k as int]@);
        }
        let co = tx.outputs[k].to_checked();
        outs.push(co);
        txids.push(tx.hash.clone());
        proof {
            assert(outs@.take(base) =~= outs0);
            assert(txids@.take(base) =~= txids0);
            assert(target[k as int].0 == tx@.outputs[k as int]);
            assert(target[k as int].1 == tx@.hash);
        }
        k = k + 1;
    }
    proof {
        assert(rows_match(outs@.skip(base), txids@.skip(base), target)) by {
            assert(outs@.skip(base).len() == target.len());
            assert forall|i: int| 0 <= i < target.len() implies (#[trigger] outs@.skip(base)[i])@
                == target[i].0 && txids@.skip(base)[i]@ == target[i].1 by {
                assert(outs@.skip(base)[i] == outs@[base + i]);
                assert(txids@.skip(base)[i] == txids@[base + i]);
            }
        }
    }
}

/// Appends the kept actions of one block, transaction by transaction.
fn append_block_actions(
    acts: &mut Vec<CheckedAction>,
    txids: &mut Vec<Vec<u8>>,
    block: &CompactBlock,
    spam_filter_limit: u32,
)
    requires
        forall|j: int|
            0 <= j < block@.vtx.len() ==> tx_actions_valid(
                #[trigger] block@.vtx[j],
                spam_filter_limit as nat,
            ),
        old(acts)@.len() == old(txids)@.len(),
    ensures
        final(acts)@.len() == final(txids)@.len(),
        final(acts)@.len() >= old(acts)@.len(),
        final(acts)@.take(old(acts)@.len() as int) == old(acts)@,
        final(txids)@.take(old(txids)@.len() as int) == old(txids)@,
        rows_match(
            final(acts)@.skip(old(acts)@.len() as int),
            final(txids)@.skip(old(txids)@.len() as int),
            block_action_entries(block@, spam_filter_limit as nat),
        ),
        forall|i: int|
            old(acts)@.len() <= i < final(acts)@.len() ==> (#[trigger] final(acts)@[i])@.valid(),
{
    let ghost base = old(acts)@.len() as int;
    let ghost acts0 = old(acts)@;
    let ghost txids0 = old(txids)@;
    let ghost limit = spam_filter_limit as nat;
    let ghost f = |tx: TxView| tx_action_entries(tx, limit);
    let mut j: usize = 0;
    proof {
        assert(acts@.skip(base) =~= Seq::<CheckedAction>::empty());
        assert(txids@.skip(base) =~= Seq::<Vec<u8>>::empty());
        assert(block@.vtx.take(0).map_values(f) =~= Seq::<Seq<(ActionView, Seq<u8>)>>::empty());
        assert(block@.vtx.take(0).flat_map(f) =~= Seq::<(ActionView, Seq<u8>)>::empty());
    }
    while j < block.vtx.len()
        invariant
            forall|j2: int|
                0 <= j2 < block@.vtx.len() ==> tx_actions_valid(#[trigger] block@.vtx[j2], limit),
            limit == spam_filter_limit as nat,
            f == (|tx: TxView| tx_action_entries(tx, limit)),
            base == acts0.len() && base == txids0.len(),
            j <= block.vtx@.len(),
            block@.vtx.len() == block.vtx@.len(),
            acts@.len() == txids@.len(),
            acts@.len() >= base,
            acts@.take(base) == acts0,
            txids@.take(base) == txids0,
            rows_match(acts@.skip(base), txids@.skip(base), block@.vtx.take(j as int).flat_map(f)),
            forall|i: int| base <= i < acts@.len() ==> (#[trigger] acts@[i])@.valid(),
        decreases block.vtx@.len() - j,
    {
        let ghost pre_a = acts@;
        let ghost pre_t = txids@;
        proof {
            assert(block@.vtx[j as int] == block.vtx@[j as int]@);
        }
        append_tx_actions(acts, txids, &block.vtx[j], spam_filter_limit);
        proof {
            lemma_flat_map_take_step(block@.vtx, f, j as int);
            assert(f(block@.vtx[j as int]) == tx_action_entries(block@.vtx[j as int], limit));
            lemma_rows_extend(
                pre_a,
                pre_t,
                acts@,
                txids@,
                base,
                block@.vtx.take(j as int).flat_map(f),
                tx_action_entries(block@.vtx[j as int], limit),
            );
            assert(acts@.take(base) =~= acts0) by {
                assert(pre_a.take(base) == acts0);
            }
            assert(txids@.take(base) =~= txids0) by {
                assert(pre_t.take(base) == txids0);
            }
            assert forall|i: int| base <= i < acts@.len() implies (#[trigger] acts@[i])@.valid() by {
                if i < pre_a.len() {
                    assert(acts@.take(pre_a.len() as int)[i] == pre_a[i]);
                }
            }
        }
        j = j + 1;
    }
    proof {
        assert(block@.vtx.take(block@.vtx.len() as int) =~= block@.vtx);
    }
}

/// Appends the kept outputs of one block, transaction by transaction.
fn append_block_outputs(
    outs: &mut Vec<CheckedOutput>,
    txids: &mut Vec<Vec<u8>>,
    block: &CompactBlock,
    spam_filter_limit: u32,
)
    requires
        forall|j: int|
            0 <= j < block@.vtx.len() ==> tx_outputs_valid(
                #[trigger] block@.vtx[j],
                spam_filter_limit as nat,
            ),
        old(outs)@.len() == old(txids)@.len(),
    ensures
        final(outs)@.len() == final(txids)@.len(),
        final(outs)@.len() >= old(outs)@.len(),
        final(outs)@.take(old(outs)@.len() as int) == old(outs)@,
        final(txids)@.take(old(txids)@.len() as int) == old(txids)@,
        rows_match(
            final(outs)@.skip(old(outs)@.len() as int),
            final(txids)@.skip(old(txids)@.len() as int),
            block_output_entries(block@, spam_filter_limit as nat),
        ),
        forall|i: int|
            old(outs)@.len() <= i < final(outs)@.len() ==> (#[trigger] final(outs)@[i])@.valid(),
{
    let ghost base = old(outs)@.len() as int;
    let ghost outs0 = old(outs)@;
    let ghost txids0 = old(txids)@;
    let ghost limit = spam_filter_limit as nat;
    let ghost f = |tx: TxView| tx_output_entries(tx, limit);
    let mut j: usize = 0;
    proof {
        assert(outs@.skip(base) =~= Seq::<CheckedOutput>::empty());
        assert(txids@.skip(base) =~= Seq::<Vec<u8>>::empty());
        assert(block@.vtx.take(0).map_values(f) =~= Seq::<Seq<(OutputView, Seq<u8>)>>::empty());
        assert(block@.vtx.take(0).flat_map(f) =~= Seq::<(OutputView, Seq<u8>)>::empty());
    }
    while j < block.vtx.len()
        invariant
            forall|j2: int|
                0 <= j2 < block@.vtx.len() ==> tx_outputs_valid(#[trigger] block@.vtx[j2], limit),
            limit == spam_filter_limit as nat,
            f == (|tx: TxView| tx_output_entries(tx, limit)),
            base == outs0.len() && base == txids0.len(),
            j <= block.vtx@.len(),
            block@.vtx.len() == block.vtx@.len(),
            outs@.len() == txids@.len(),
            outs@.len() >= base,
            outs@.take(base) == outs0,
            txids@.take(base) == txids0,
            rows_match(outs@.skip(base), txids@.skip(base), block@.vtx.take(j as int).flat_map(f)),
            forall|i: int| base <= i < outs@.len() ==> (#[trigger] outs@[i])@.valid(),
        decreases block.vtx@.len() - j,
    {
        let ghost pre_o = outs@;
        let ghost pre_t = txids@;
        proof {
            assert(block@.vtx[j as int] == block.vtx@[j as int]@);
        }
        append_tx_outputs(outs, txids, &block.vtx[j], spam_filter_limit);
        proof {
            lemma_flat_map_take_step(block@.vtx, f, j as int);
            assert(f(block@.vtx[j as int]) == tx_output_entries(block@.vtx[j as int], limit));
            lemma_rows_extend(
                pre_o,
                pre_t,
                outs@,
                txids@,
                base,
                block@.vtx.take(j as int).flat_map(f),
                tx_output_entries(block@.vtx[j as int], limit),
            );
            assert(outs@.take(base) =~= outs0) by {
                assert(pre_o.take(base) == outs0);
            }
            assert(txids@.take(base) =~= txids0) by {
                assert(pre_t.take(base) == txids0);
            }
            assert forall|i: int| base <= i < outs@.len() implies (#[trigger] outs@[i])@.valid() by {
                if i < pre_o.len() {
                    assert(outs@.take(pre_o.len() as int)[i] == pre_o[i]);
                }
            }
        }
        j = j + 1;
    }
    proof {
        assert(block@.vtx.take(block@.vtx.len() as int) =~= block@.vtx);
    }
}

/// Explodes a validated batch of blocks into its per-pool contents.
///
/// The caller establishes validity with [`check_batch`];
/// [`extract_batch`] combines the two. A pool that is not scanned
/// contributes empty lists.
pub fn extract_batch_contents(
    blocks: &Vec<CompactBlock>,
    pool: ShieldedPool,
    spam_filter_limit: u32,
) -> (r: BatchContents)
    requires
        (pool is Orchard || pool is Both) ==> batch_actions_valid(
            block_views(blocks@),
            spam_filter_limit as nat,
        ),
        (pool is Sapling || pool is Both) ==> batch_outputs_valid(
            block_views(blocks@),
            spam_filter_limit as nat,
        ),
    ensures
        r.wf(),
        (pool is Orchard || pool is Both) ==> rows_match(
            r.actions@,
            r.action_txids@,
            batch_action_entries(block_views(blocks@), spam_filter_limit as nat),
        ),
        (pool is Sapling || pool is Both) ==> rows_match(
            r.outputs@,
            r.output_txids@,
            batch_output_entries(block_views(blocks@), spam_filter_limit as nat),
        ),
        !(pool is Orchard || pool is Both) ==> r.actions@.len() == 0,
        !(pool is Sapling || pool is Both) ==> r.outputs@.len() == 0,
        forall|i: int| 0 <= i < r.actions@.len() ==> (#[trigger] r.actions@[i])@.valid(),
        forall|i: int| 0 <= i < r.outputs@.len() ==> (#[trigger] r.outputs@[i])@.valid(),
{
    let ghost bs = block_views(blocks@);
    let ghost limit = spam_filter_limit as nat;
    let ghost fa = |b: BlockView| block_action_entries(b, limit);
    let ghost fo = |b: BlockView| block_output_entries(b, limit);
    let scan_a = pool.sync_orchard();
    let scan_b = pool.sync_sapling();
    let mut actions: Vec<CheckedAction> = Vec::new();
    let mut action_txids: Vec<Vec<u8>> = Vec::new();
    let mut outputs: Vec<CheckedOutput> = Vec::new();
    let mut output_txids: Vec<Vec<u8>> = Vec::new();
    let mut i: usize = 0;
    proof {
        assert(bs.take(0).map_values(fa) =~= Seq::<Seq<(ActionView, Seq<u8>)>>::empty());
        assert(bs.take(0).flat_map(fa) =~= Seq::<(ActionView, Seq<u8>)>::empty());
        assert(bs.take(0).map_values(fo) =~= Seq::<Seq<(OutputView, Seq<u8>)>>::empty());
        assert(bs.take(0).flat_map(fo) =~= Seq::<(OutputView, Seq<u8>)>::empty());
    }
    while i < blocks.len()
        invariant
            bs == block_views(blocks@),
            bs.len() == blocks@.len(),
            limit == spam_filter_limit as nat,
            fa == (|b: BlockView| block_action_entries(b, limit)),
            fo == (|b: BlockView| block_output_entries(b, limit)),
            scan_a == (pool is Orchard || pool is Both),
            scan_b == (pool is Sapling || pool is Both),
            scan_a ==> batch_actions_valid(bs, limit),
            scan_b ==> batch_outputs_valid(bs, limit),
            i <= blocks@.len(),
            actions@.len() == action_txids@.len(),
            outputs@.len() == output_txids@.len(),
            scan_a ==> rows_match(actions@, action_txids@, bs.take(i as int).flat_map(fa)),
            scan_b ==> rows_match(outputs@, output_txids@, bs.take(i as int).flat_map(fo)),
            !scan_a ==> actions@.len() == 0,
            !scan_b ==> outputs@.len() == 0,
            forall|k: int| 0 <= k < actions@.len() ==> (#[trigger] actions@[k])@.valid(),
            forall|k: int| 0 <= k < outputs@.len() ==> (#[trigger] outputs@[k])@.valid(),
        decreases blocks@.len() - i,
    {
        let block = &blocks[i];
        proof {
            assert(bs[i as int] == blocks@[i as int]@);
        }
        if scan_a {
            let ghost pre_a = actions@;
            let ghost pre_t = action_txids@;
            proof {
                assert forall|j: int| 0 <= j < block@.vtx.len() implies tx_actions_valid(
                    #[trigger] block@.vtx[j],
                    limit,
                ) by {
                    assert(tx_actions_valid(bs[i as int].vtx[j], limit));
                }
            }
            append_block_actions(&mut actions, &mut action_txids, block, spam_filter_limit);
            proof {
                lemma_flat_map_take_step(bs, fa, i as int);
                assert(pre_a.skip(0) =~= pre_a);
                assert(pre_t.skip(0) =~= pre_t);
                lemma_rows_extend(
                    pre_a,
                    pre_t,
                    actions@,
                    action_txids@,
                    0,
                    bs.take(i as int).flat_map(fa),
                    block_action_entries(bs[i as int], limit),
                );
                assert(actions@.skip(0) =~= actions@);
                assert(action_txids@.skip(0) =~= action_txids@);
                assert(pre_a.skip(0) =~= pre_a);
                assert(pre_t.skip(0) =~= pre_t);
                assert forall|k: int| 0 <= k < actions@.len() implies (#[trigger] actions@[k])@.valid() by {
                    if k < pre_a.len() {
                        assert(actions@.take(pre_a.len() as int)[k] == pre_a[k]);
                    }
                }
            }
        }
        if scan_b {
            let ghost pre_o = outputs@;
            let ghost pre_t = output_txids@;
            proof {
                assert forall|j: int| 0 <= j < block@.vtx.len() implies tx_outputs_valid(
                    #[trigger] block@.vtx[j],
                    limit,
                ) by {
                    assert(tx_outputs_valid(bs[i as int].vtx[j], limit));
                }
            }
            append_block_outputs(&mut outputs, &mut output_txids, block, spam_filter_limit);
            proof {
                lemma_flat_map_take_step(bs, fo, i as int);
                assert(pre_o.skip(0) =~= pre_o);
                assert(pre_t.skip(0) =~= pre_t);
                lemma_rows_extend(
                    pre_o,
                    pre_t,
                    outputs@,
                    output_txids@,
                    0,
                    bs.take(i as int).flat_map(fo),
                    block_output_entries(bs[i as int], limit),
                );
                assert(outputs@.skip(0) =~= outputs@);
                assert(output_txids@.skip(0) =~= output_txids@);
                assert(pre_o.skip(0) =~= pre_o);
                assert(pre_t.skip(0) =~= pre_t);
                assert forall|k: int| 0 <= k < outputs@.len() implies (#[trigger] outputs@[k])@.valid() by {
                    if k < pre_o.len() {
                        assert(outputs@.take(pre_o.len() as int)[k] == pre_o[k]);
                    }
                }
            }
        }
        i = i + 1;
    }
    proof {
        assert(bs.take(bs.len() as int) =~= bs);
    }
    BatchContents { actions, action_txids, outputs, output_txids }
}

/// Validates and explodes one batch of blocks: the whole extractor.
///
/// Fails with `MalformedCompactRecord` exactly when some record that
/// the spam filter keeps, in a scanned pool, fails wire validation; the
/// malformed record aborts the whole batch.
pub fn extract_batch(blocks: &Vec<CompactBlock>, pool: ShieldedPool, spam_filter_limit: u32) -> (r:
    Result<BatchContents, SyncError>)
    ensures
        r is Ok <==> {
            &&& (pool is Orchard || pool is Both) ==> batch_actions_valid(
                block_views(blocks@),
                spam_filter_limit as nat,
            )
            &&& (pool is Sapling || pool is Both) ==> batch_outputs_valid(
                block_views(blocks@),
                spam_filter_limit as nat,
            )
        },
        r matches Ok(bc) ==> {
            &&& bc.wf()
            &&& ((pool is Orchard || pool is Both) ==> rows_match(
                bc.actions@,
                bc.action_txids@,
                batch_action_entries(block_views(blocks@), spam_filter_limit as nat),
            ))
            &&& ((pool is Sapling || pool is Both) ==> rows_match(
                bc.outputs@,
                bc.output_txids@,
                batch_output_entries(block_views(blocks@), spam_filter_limit as nat),
            ))
            &&& (!(pool is Orchard || pool is Both) ==> bc.actions@.len() == 0)
            &&& (!(pool is Sapling || pool is Both) ==> bc.outputs@.len() == 0)
            &&& (forall|i: int| 0 <= i < bc.actions@.len() ==> (#[trigger] bc.actions@[i])@.valid())
            &&& (forall|i: int| 0 <= i < bc.outputs@.len() ==> (#[trigger] bc.outputs@[i])@.valid())
        },
        r matches Err(e) ==> e is MalformedCompactRecord,
{
    match check_batch(blocks, pool, spam_filter_limit) {
        Ok(()) => Ok(extract_batch_contents(blocks, pool, spam_filter_limit)),
        Err(e) => Err(e),
    }
}

/// The pool-A record count a transaction contributes: all of its
/// actions when kept, none when the spam filter skips it.
pub open spec fn tx_action_count(tx: TxView, limit: nat) -> nat {
    if tx_keeps_actions(tx, limit) {
        tx.actions.len()
    } else {
        0
    }
}

/// The pool-B record count a transaction contributes.
pub open spec fn tx_output_count(tx: TxView, limit: nat) -> nat {
    if tx_keeps_outputs(tx, limit) {
        tx.outputs.len()
    } else {
        0
    }
}

/// Sum of the pool-A record counts of a list of transactions.
pub open spec fn sum_tx_action_counts(txs: Seq<TxView>, limit: nat) -> nat
    decreases txs.len(),
{
    if txs.len() == 0 {
        0
    } else {
        sum_tx_action_counts(txs.drop_last(), limit) + tx_action_count(txs.last(), limit)
    }
}

/// Sum of the pool-B record counts of a list of transactions.
pub open spec fn sum_tx_output_counts(txs: Seq<TxView>, limit: nat) -> nat
    decreases txs.len(),
{
    if txs.len() == 0 {
        0
    } else {
        sum_tx_output_counts(txs.drop_last(), limit) + tx_output_count(txs.last(), limit)
    }
}

/// Sum of the pool-A record counts over a batch of blocks.
pub open spec fn sum_block_action_counts(bs: Seq<BlockView>, limit: nat) -> nat
    decreases bs.len(),
{
    if bs.len() == 0 {
        0
    } else {
        sum_block_action_counts(bs.drop_last(), limit) + sum_tx_action_counts(
            bs.last().vtx,
            limit,
        )
    }
}

/// Sum of the pool-B record counts over a batch of blocks.
pub open spec fn sum_block_output_counts(bs: Seq<BlockView>, limit: nat) -> nat
    decreases bs.len(),
{
    if bs.len() == 0 {
        0
    } else {
        sum_block_output_counts(bs.drop_last(), limit) + sum_tx_output_counts(
            bs.last().vtx,
            limit,
        )
    }
}

/// A flat map over all of `s` equals the flat map over all but the
/// last element, extended by the image of the last element.
proof fn lemma_flat_map_unstep<A, B>(s: Seq<A>, f: spec_fn(A) -> Seq<B>)
    requires
        s.len() > 0,
    ensures
        s.flat_map(f) == s.drop_last().flat_map(f) + f(s.last()),
{
    lemma_flat_map_take_step(s, f, s.len() - 1);
    assert(s.take(s.len() as int) =~= s);
    assert(s.take(s.len() - 1) =~= s.drop_last());
}

/// The number of pool-A entries a list of transactions contributes is
/// the sum of the kept transactions' action counts.
proof fn lemma_tx_list_action_count(txs: Seq<TxView>, limit: nat)
    ensures
        txs.flat_map(|tx: TxView| tx_action_entries(tx, limit)).len() == sum_tx_action_counts(
            txs,
            limit,
        ),
    decreases txs.len(),
{
    let f = |tx: TxView| tx_action_entries(tx, limit);
    if txs.len() == 0 {
        assert(txs.map_values(f) =~= Seq::<Seq<(ActionView, Seq<u8>)>>::empty());
        assert(txs.flat_map(f) =~= Seq::<(ActionView, Seq<u8>)>::empty());
    } else {
        lemma_tx_list_action_count(txs.drop_last(), limit);
        lemma_flat_map_unstep(txs, f);
    }
}

/// The number of pool-B entries a list of transactions contributes is
/// the sum of the kept transactions' output counts.
proof fn lemma_tx_list_output_count(txs: Seq<TxView>, limit: nat)
    ensures
        txs.flat_map(|tx: TxView| tx_output_entries(tx, limit)).len() == sum_tx_output_counts(
            txs,
            limit,
        ),
    decreases txs.len(),
{
    let f = |tx: TxView| tx_output_entries(tx, limit);
    if txs.len() == 0 {
        assert(txs.map_values(f) =~= Seq::<Seq<(OutputView, Seq<u8>)>>::empty());
        assert(txs.flat_map(f) =~= Seq::<(OutputView, Seq<u8>)>::empty());
    } else {
        lemma_tx_list_output_count(txs.drop_last(), limit);
        lemma_flat_map_unstep(txs, f);
    }
}

/// Leaf count law, pool A: the number of leaves a batch contributes
/// equals the sum of `len(tx.actions)` over every transaction the spam
/// filter keeps, and nothing else — in particular it does not depend
/// on witness tracking, which only tags the same entries.
pub proof fn lemma_batch_action_leaf_count(bs: Seq<BlockView>, limit: nat)
    ensures
        batch_action_entries(bs, limit).len() == sum_block_action_counts(bs, limit),
    decreases bs.len(),
{
    let f = |b: BlockView| block_action_entries(b, limit);
    if bs.len() == 0 {
        assert(bs.map_values(f) =~= Seq::<Seq<(ActionView, Seq<u8>)>>::empty());
        assert(bs.flat_map(f) =~= Seq::<(ActionView, Seq<u8>)>::empty());
    } else {
        lemma_batch_action_leaf_count(bs.drop_last(), limit);
        lemma_flat_map_unstep(bs, f);
        lemma_tx_list_action_count(bs.last().vtx, limit);
    }
}

/// Leaf count law, pool B.
pub proof fn lemma_batch_output_leaf_count(bs: Seq<BlockView>, limit: nat)
    ensures
        batch_output_entries(bs, limit).len() == sum_block_output_counts(bs, limit),
    decreases bs.len(),
{
    let f = |b: BlockView| block_output_entries(b, limit);
    if bs.len() == 0 {
        assert(bs.map_values(f) =~= Seq::<Seq<(OutputView, Seq<u8>)>>::empty());
        assert(bs.flat_map(f) =~= Seq::<(OutputView, Seq<u8>)>::empty());
    } else {
        lemma_batch_output_leaf_count(bs.drop_last(), limit);
        lemma_flat_map_unstep(bs, f);
        lemma_tx_list_output_count(bs.last().vtx, limit);
    }
}

/// Spam skip law, pool A: a transaction with more actions than the
/// spam filter limit contributes no pool-A entries at all.
pub proof fn lemma_spam_skip_actions(tx: TxView, limit: nat)
    requires
        tx.actions.len() > limit,
    ensures
        tx_action_entries(tx, limit) == Seq::<(ActionView, Seq<u8>)>::empty(),
{
}

/// Spam skip law, pool B: a transaction with more outputs than the
/// spam filter limit contributes no pool-B entries at all.
pub proof fn lemma_spam_skip_outputs(tx: TxView, limit: nat)
    requires
        tx.outputs.len() > limit,
    ensures
        tx_output_entries(tx, limit) == Seq::<(OutputView, Seq<u8>)>::empty(),
{
}

/// Pool independence law: what a transaction contributes for pool B
/// depends only on its outputs and its hash, never on its action
/// count — and symmetrically for pool A.
pub proof fn lemma_pools_judged_independently(tx1: TxView, tx2: TxView, limit: nat)
    requires
        tx1.outputs == tx2.outputs,
        tx1.hash == tx2.hash,
    ensures
        tx_output_entries(tx1, limit) == tx_output_entries(tx2, limit),
{
}

/// Validity established under a generous spam limit carries down to
/// any stricter limit: a stricter filter only keeps fewer records.
pub proof fn lemma_batch_actions_valid_monotone(bs: Seq<BlockView>, big: nat, small: nat)
    requires
        small <= big,
        batch_actions_valid(bs, big),
    ensures
        batch_actions_valid(bs, small),
{
    assert forall|i: int, j: int|
        0 <= i < bs.len() && 0 <= j < bs[i].vtx.len() implies tx_actions_valid(
        #[trigger] bs[i].vtx[j],
        small,
    ) by {
        assert(tx_actions_valid(bs[i].vtx[j], big));
    }
}

/// Validity established under a generous spam limit carries down to
/// any stricter limit, pool B.
pub proof fn lemma_batch_outputs_valid_monotone(bs: Seq<BlockView>, big: nat, small: nat)
    requires
        small <= big,
        batch_outputs_valid(bs, big),
    ensures
        batch_outputs_valid(bs, small),
{
    assert forall|i: int, j: int|
        0 <= i < bs.len() && 0 <= j < bs[i].vtx.len() implies tx_outputs_valid(
        #[trigger] bs[i].vtx[j],
        small,
    ) by {
        assert(tx_outputs_valid(bs[i].vtx[j], big));
    }
}

/// A stricter spam limit never yields more pool-A entries.
pub proof fn lemma_action_count_monotone(bs: Seq<BlockView>, big: nat, small: nat)
    requires
        small <= big,
    ensures
        batch_action_entries(bs, small).len() <= batch_action_entries(bs, big).len(),
{
    lemma_batch_action_leaf_count(bs, small);
    lemma_batch_action_leaf_count(bs, big);
    lemma_sum_action_counts_monotone(bs, big, small);
}

/// A stricter spam limit never yields more pool-B entries.
pub proof fn lemma_output_count_monotone(bs: Seq<BlockView>, big: nat, small: nat)
    requires
        small <= big,
    ensures
        batch_output_entries(bs, small).len() <= batch_output_entries(bs, big).len(),
{
    lemma_batch_output_leaf_count(bs, small);
    lemma_batch_output_leaf_count(bs, big);
    lemma_sum_output_counts_monotone(bs, big, small);
}

proof fn lemma_sum_action_counts_monotone(bs: Seq<BlockView>, big: nat, small: nat)
    requires
        small <= big,
    ensures
        sum_block_action_counts(bs, small) <= sum_block_action_counts(bs, big),
    decreases bs.len(),
{
    if bs.len() > 0 {
        lemma_sum_action_counts_monotone(bs.drop_last(), big, small);
        lemma_sum_tx_action_counts_monotone(bs.last().vtx, big, small);
    }
}

proof fn lemma_sum_tx_action_counts_monotone(txs: Seq<TxView>, big: nat, small: nat)
    requires
        small <= big,
    ensures
        sum_tx_action_counts(txs, small) <= sum_tx_action_counts(txs, big),
    decreases txs.len(),
{
    if txs.len() > 0 {
        lemma_sum_tx_action_counts_monotone(txs.drop_last(), big, small);
    }
}

proof fn lemma_sum_output_counts_monotone(bs: Seq<BlockView>, big: nat, small: nat)
    requires
        small <= big,
    ensures
        sum_block_output_counts(bs, small) <= sum_block_output_counts(bs, big),
    decreases bs.len(),
{
    if bs.len() > 0 {
        lemma_sum_output_counts_monotone(bs.drop_last(), big, small);
        lemma_sum_tx_output_counts_monotone(bs.last().vtx, big, small);
    }
}

proof fn lemma_sum_tx_output_counts_monotone(txs: Seq<TxView>, big: nat, small: nat)
    requires
        small <= big,
    ensures
        sum_tx_output_counts(txs, small) <= sum_tx_output_counts(txs, big),
    decreases txs.len(),
{
    if txs.len() > 0 {
        lemma_sum_tx_output_counts_monotone(txs.drop_last(), big, small);
    }
}

/// Flattening batches first and extracting once is the same as
/// extracting per batch and concatenating.
proof fn lemma_flat_map_of_flatten<A, B>(batches: Seq<Seq<A>>, f: spec_fn(A) -> Seq<B>)
    ensures
        batches.flatten().flat_map(f) == batches.map_values(|s: Seq<A>| s.flat_map(f)).flatten(),
    decreases batches.len(),
{
    let g = |s: Seq<A>| s.flat_map(f);
    if batches.len() == 0 {
        assert(batches.flatten() =~= Seq::<A>::empty());
        assert(Seq::<A>::empty().map_values(f) =~= Seq::<Seq<B>>::empty());
        assert(Seq::<A>::empty().flat_map(f) =~= Seq::<B>::empty());
        assert(batches.map_values(g) =~= Seq::<Seq<B>>::empty());
    } else {
        lemma_flat_map_of_flatten(batches.drop_last(), f);
        assert(batches =~= batches.drop_last().push(batches.last()));
        batches.drop_last().lemma_flatten_push(batches.last());
        lemma_flat_map_concat(batches.drop_last().flatten(), batches.last(), f);
        assert(batches.map_values(g) =~= batches.drop_last().map_values(g).push(g(batches.last())));
        batches.drop_last().map_values(g).lemma_flatten_push(g(batches.last()));
    }
}

/// Batch invariance law, pool A: however the same blocks are cut into
/// batches, the concatenation of the per-batch pool-A leaf sequences
/// is the leaf sequence of the whole; the final tree contents, and so
/// the final root, do not depend on the batch size.
pub proof fn lemma_batching_invariance_actions(batches: Seq<Seq<BlockView>>, limit: nat)
    ensures
        batches.map_values(|bs: Seq<BlockView>| batch_action_entries(bs, limit)).flatten()
            == batch_action_entries(batches.flatten(), limit),
{
    let f = |b: BlockView| block_action_entries(b, limit);
    lemma_flat_map_of_flatten(batches, f);
    assert(batches.map_values(|bs: Seq<BlockView>| bs.flat_map(f)) =~= batches.map_values(
        |bs: Seq<BlockView>| batch_action_entries(bs, limit),
    ));
}

/// Batch invariance law, pool B.
pub proof fn lemma_batching_invariance_outputs(batches: Seq<Seq<BlockView>>, limit: nat)
    ensures
        batches.map_values(|bs: Seq<BlockView>| batch_output_entries(bs, limit)).flatten()
            == batch_output_entries(batches.flatten(), limit),
{
    let f = |b: BlockView| block_output_entries(b, limit);
    lemma_flat_map_of_flatten(batches, f);
    assert(batches.map_values(|bs: Seq<BlockView>| bs.flat_map(f)) =~= batches.map_values(
        |bs: Seq<BlockView>| batch_output_entries(bs, limit),
    ));
}

/// Validates the kept actions of one transaction.
fn check_tx_actions(tx: &CompactTx, spam_filter_limit: u32) -> (r: Result<(), SyncError>)
    ensures
        r is Ok <==> tx_actions_valid(tx@, spam_filter_limit as nat),
        r matches Err(e) ==> e is MalformedCompactRecord,
{
    if tx.actions.len() > spam_filter_limit as usize {
        return Ok(());
    }
    let mut k: usize = 0;
    while k < tx.actions.len()
        invariant
            tx.actions@.len() <= spam_filter_limit as nat,
            k <= tx.actions@.len(),
            forall|k2: int| 0 <= k2 < k ==> (#[trigger] tx@.actions[k2]).valid(),
        decreases tx.actions@.len() - k,
    {
        match tx.actions[k].check() {
            Ok(()) => (),
            Err(e) => {
                proof {
                    assert(tx@.actions[k as int] == tx.actions@[k as int]@);
                }
                return Err(e);
            },
        }
        proof {
            assert(tx@.actions[k as int] == tx.actions@[k as int]@);
        }
        k = k + 1;
    }
    Ok(())
}

/// Validates the kept outputs of one transaction.
fn check_tx_outputs(tx: &CompactTx, spam_filter_limit: u32) -> (r: Result<(), SyncError>)
    ensures
        r is Ok <==> tx_outputs_valid(tx@, spam_filter_limit as nat),
        r matches Err(e) ==> e is MalformedCompactRecord,
{
    if tx.outputs.len() > spam_filter_limit as usize {
        return Ok(());
    }
    let mut k: usize = 0;
    while k < tx.outputs.len()
        invariant
            tx.outputs@.len() <= spam_filter_limit as nat,
            k <= tx.outputs@.len(),
            forall|k2: int| 0 <= k2 < k ==> (#[trigger] tx@.outputs[k2]).valid(),
        decreases tx.outputs@.len() - k,
    {
        match tx.outputs[k].check() {
            Ok(()) => (),
            Err(e) => {
                proof {
                    assert(tx@.outputs[k as int] == tx.outputs@[k as int]@);
                }
                return Err(e);
            },
        }
        proof {
            assert(tx@.outputs[k as int] == tx.outputs@[k as int]@);
        }
        k = k + 1;
    }
    Ok(())
}

} // verus!
