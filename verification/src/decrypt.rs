//! The trial-decryption engine.
//!
//! For each batch, every compact record of a pool is tried against the
//! pool's incoming viewing keys through the batched outside primitive;
//! a non-match is simply no hit, never an error. The engine pairs each
//! hit with the hash of the transaction that carries it and keeps the
//! hits in batch order.

use vstd::prelude::*;

use crate::SyncError;
use crate::compact::{ActionView, CheckedAction, CheckedOutput, OutputView};
use crate::crypto::{orchard_ivk_check, orchard_ivk_from_sk, sapling_ivk_check};
use crate::crypto::{orchard_ivk_valid, sapling_ivk_valid};
use orchard::keys::IncomingViewingKey;
use orchard::note_encryption::{CompactAction, OrchardDomain};
use sapling_crypto::SaplingIvk;
use sapling_crypto::note_encryption::{
    CompactOutputDescription, PreparedIncomingViewingKey as SaplingPreparedIvk, SaplingDomain,
    Zip212Enforcement,
};
use zcash_note_encryption::EphemeralKeyBytes;
use zcash_note_encryption::batch::try_compact_note_decryption;

verus! {

/// A pool-A incoming viewing key in its 64-byte raw encoding, checked
/// at construction.
#[derive(Clone, Copy, Debug)]
pub struct OrchardIvkBytes {
    pub bytes: [u8; 64],
}

/// A pool-B incoming viewing key in its 32-byte scalar encoding,
/// checked at construction.
#[derive(Clone, Copy, Debug)]
pub struct SaplingIvkBytes {
    pub bytes: [u8; 32],
}

impl OrchardIvkBytes {
    /// The key parses under the pool-A key decoder.
    pub open spec fn valid(self) -> bool {
        orchard_ivk_valid(self.bytes@)
    }

    /// Accepts exactly the byte strings the pool-A key decoder
    /// accepts.
    pub fn new(bytes: [u8; 64]) -> (r: Option<OrchardIvkBytes>)
        ensures
            r is Some <==> orchard_ivk_valid(bytes@),
            r matches Some(k) ==> k.bytes == bytes && k.valid(),
    {
        if orchard_ivk_check(&bytes) {
            Some(OrchardIvkBytes { bytes })
        } else {
            None
        }
    }
}

impl SaplingIvkBytes {
    /// The key is a canonical pool-B scalar encoding.
    pub open spec fn valid(self) -> bool {
        sapling_ivk_valid(self.bytes@)
    }

    /// Accepts exactly the canonical scalar encodings.
    pub fn new(bytes: [u8; 32]) -> (r: Option<SaplingIvkBytes>)
        ensures
            r is Some <==> sapling_ivk_valid(bytes@),
            r matches Some(k) ==> k.bytes == bytes && k.valid(),
    {
        if sapling_ivk_check(&bytes) {
            Some(SaplingIvkBytes { bytes })
        } else {
            None
        }
    }
}

/// Placeholder keys for benchmark runs without a real wallet key:
/// one key per small spending-key seed, each valid by construction.
pub fn dummy_ivk_orchard(count: u8) -> (r: Vec<OrchardIvkBytes>)
    ensures
        r@.len() <= count,
        forall|i: int| 0 <= i < r@.len() ==> (#[trigger] r@[i]).valid(),
{
    let mut out: Vec<OrchardIvkBytes> = Vec::new();
    let mut i: u8 = 0;
    while i < count
        invariant
            out@.len() <= i,
            i <= count,
            forall|k: int| 0 <= k < out@.len() ==> (#[trigger] out@[k]).valid(),
        decreases count - i,
    {
        i = i + 1;
        let sk = [i; 32];
        match orchard_ivk_from_sk(&sk) {
            Some(bytes) => {
                out.push(OrchardIvkBytes { bytes });
            },
            None => (),
        }
    }
    out
}

/// Builds pool-B placeholder keys from caller-supplied uniform seeds
/// (randomness is the caller's concern): each seed is clamped below
/// the scalar bound, which makes it a canonical encoding, so every
/// seed yields one key.
pub fn dummy_ivk_sapling(seeds: &Vec<[u8; 32]>) -> (r: Vec<SaplingIvkBytes>)
    ensures
        r@.len() == seeds@.len(),
        forall|i: int| 0 <= i < r@.len() ==> (#[trigger] r@[i]).valid(),
{
    let mut out: Vec<SaplingIvkBytes> = Vec::new();
    let mut i: usize = 0;
    while i < seeds.len()
        invariant
            out@.len() == i,
            i <= seeds@.len(),
            forall|k: int| 0 <= k < out@.len() ==> (#[trigger] out@[k]).valid(),
        decreases seeds@.len() - i,
    {
        let mut candidate = seeds[i];
        let last = candidate[31];
        let clamped = last & 0x07;
        proof {
            assert(clamped < 8) by (bit_vector)
                requires
                    clamped == last & 0x07,
            ;
        }
        candidate.set(31, clamped);
        if sapling_ivk_check(&candidate) {
            out.push(SaplingIvkBytes { bytes: candidate });
        } else {
            proof {
                assert(false);
            }
        }
        i = i + 1;
    }
    out
}

/// The raw encodings of a list of pool-A keys.
pub open spec fn orchard_ivk_views(ivks: Seq<OrchardIvkBytes>) -> Seq<Seq<u8>> {
    ivks.map_values(|k: OrchardIvkBytes| k.bytes@)
}

/// The raw encodings of a list of pool-B keys.
pub open spec fn sapling_ivk_views(ivks: Seq<SaplingIvkBytes>) -> Seq<Seq<u8>> {
    ivks.map_values(|k: SaplingIvkBytes| k.bytes@)
}

/// Which pool-A records of a batch decrypt under which keys is a
/// function of the keys and the records alone: one flag per record,
/// in batch order.
pub uninterp spec fn orchard_trial_matches(ivks: Seq<Seq<u8>>, actions: Seq<ActionView>) -> Seq<
    bool,
>;

/// One flag per pool-B record, in batch order.
pub uninterp spec fn sapling_trial_matches(ivks: Seq<Seq<u8>>, outputs: Seq<OutputView>) -> Seq<
    bool,
>;

/// Relies on the batched compact trial-decryption primitive
/// (`zcash_note_encryption::batch::try_compact_note_decryption`),
/// which returns one result per record, in input order — and only
/// misses when no key at all is given — and on the pool-A key and
/// compact-action conversions around it.
#[verifier::external_body]
fn orchard_batch_decrypt(ivks: &Vec<OrchardIvkBytes>, actions: &Vec<CheckedAction>) -> (r: Vec<
    bool,
>)
    requires
        forall|i: int| 0 <= i < ivks@.len() ==> (#[trigger] ivks@[i]).valid(),
        forall|i: int| 0 <= i < actions@.len() ==> (#[trigger] actions@[i])@.valid(),
    ensures
        r@.len() == actions@.len(),
        r@ == orchard_trial_matches(
            orchard_ivk_views(ivks@),
            actions@.map_values(|a: CheckedAction| a@),
        ),
        ivks@.len() == 0 ==> forall|i: int| 0 <= i < r@.len() ==> !(#[trigger] r@[i]),
{
    let keys: Vec<_> = ivks.iter().map(|k| IncomingViewingKey::from_bytes(&k.bytes).unwrap().prepare()).collect();
    let items: Vec<(OrchardDomain, CompactAction)> = actions.iter().map(|a| {
        let act = CompactAction::from_parts(
            orchard::note::Nullifier::from_bytes(&a.nullifier).unwrap(),
            orchard::note::ExtractedNoteCommitment::from_bytes(&a.cmx).unwrap(),
            EphemeralKeyBytes::from(a.ephemeral_key),
            a.ciphertext,
        );
        (OrchardDomain::for_compact_action(&act), act)
    }).collect();
    try_compact_note_decryption(&keys, &items).into_iter().map(|o| o.is_some()).collect()
}

/// Relies on the batched compact trial-decryption primitive — one
/// result per record, in input order, all misses when no key at all
/// is given — and on the pool-B key and compact-output conversions
/// around it.
#[verifier::external_body]
fn sapling_batch_decrypt(ivks: &Vec<SaplingIvkBytes>, outputs: &Vec<CheckedOutput>) -> (r: Vec<
    bool,
>)
    requires
        forall|i: int| 0 <= i < ivks@.len() ==> (#[trigger] ivks@[i]).valid(),
        forall|i: int| 0 <= i < outputs@.len() ==> (#[trigger] outputs@[i])@.valid(),
    ensures
        r@.len() == outputs@.len(),
        r@ == sapling_trial_matches(
            sapling_ivk_views(ivks@),
            outputs@.map_values(|o: CheckedOutput| o@),
        ),
        ivks@.len() == 0 ==> forall|i: int| 0 <= i < r@.len() ==> !(#[trigger] r@[i]),
{
    let keys: Vec<_> = ivks.iter().map(
        |k| SaplingPreparedIvk::new(&SaplingIvk(jubjub::Fr::from_bytes(&k.bytes).unwrap())),
    ).collect();
    let items: Vec<(SaplingDomain, CompactOutputDescription)> = outputs.iter().map(|o| {
        let out = CompactOutputDescription {
            ephemeral_key: EphemeralKeyBytes::from(o.ephemeral_key),
            cmu: sapling_crypto::note::ExtractedNoteCommitment::from_bytes(&o.cmu).unwrap(),
            enc_ciphertext: o.ciphertext,
        };
        (SaplingDomain::new(Zip212Enforcement::On), out)
    }).collect();
    try_compact_note_decryption(&keys, &items).into_iter().map(|o| o.is_some()).collect()
}

/// One decrypted hit: the index of the record within its batch and
/// the hash of the transaction that carries it — enough context to
/// fetch the full transaction afterwards.
#[derive(Clone, Debug)]
pub struct DecryptHit {
    pub index: usize,
    pub txid: Vec<u8>,
}

/// The indices at which the match flags are set, in increasing order.
pub open spec fn spec_hit_indices(matches: Seq<bool>) -> Seq<int>
    decreases matches.len(),
{
    if matches.len() == 0 {
        Seq::empty()
    } else {
        spec_hit_indices(matches.drop_last()) + (if matches.last() {
            seq![matches.len() - 1 as int]
        } else {
            Seq::empty()
        })
    }
}

/// Row agreement of a hit list with the match flags and txids it was
/// drawn from.
pub open spec fn hits_match(
    hits: Seq<DecryptHit>,
    matches: Seq<bool>,
    txids: Seq<Vec<u8>>,
) -> bool {
    &&& hits.len() == spec_hit_indices(matches).len()
    &&& forall|k: int|
        0 <= k < hits.len() ==> {
            &&& (#[trigger] hits[k]).index == spec_hit_indices(matches)[k]
            &&& 0 <= hits[k].index < txids.len()
            &&& hits[k].txid@ == txids[hits[k].index as int]@
        }
}

/// Row agreement of a hit list with match flags and txid values.
pub open spec fn hits_match_views(
    hits: Seq<DecryptHit>,
    matches: Seq<bool>,
    txids: Seq<Seq<u8>>,
) -> bool {
    &&& hits.len() == spec_hit_indices(matches).len()
    &&& forall|k: int|
        0 <= k < hits.len() ==> {
            &&& (#[trigger] hits[k]).index == spec_hit_indices(matches)[k]
            &&& 0 <= hits[k].index < txids.len()
            &&& hits[k].txid@ == txids[hits[k].index as int]
        }
}

/// Pairs the set match flags with their txids, in batch order.
fn collect_hits(matches: &Vec<bool>, txids: &Vec<Vec<u8>>) -> (r: Vec<DecryptHit>)
    requires
        matches@.len() == txids@.len(),
    ensures
        hits_match(r@, matches@, txids@),
{
    let mut out: Vec<DecryptHit> = Vec::new();
    let mut i: usize = 0;
    while i < matches.len()
        invariant
            matches@.len() == txids@.len(),
            i <= matches@.len(),
            hits_match(out@, matches@.take(i as int), txids@),
            forall|k: int| 0 <= k < out@.len() ==> (#[trigger] out@[k]).index < i,
        decreases matches@.len() - i,
    {
        proof {
            assert(matches@.take(i + 1).drop_last() =~= matches@.take(i as int));
        }
        if matches[i] {
            out.push(DecryptHit { index: i, txid: txids[i].clone() });
        }
        i = i + 1;
    }
    proof {
        assert(matches@.take(matches@.len() as int) =~= matches@);
    }
    out
}

/// Trial-decrypts one batch of pool-A records against the keys.
///
/// The result is a function of the keys and the batch alone (running
/// it again over the same batch yields the same hits in the same
/// order), each hit carries the txid at its index, and hits appear in
/// batch order. A non-match is no hit; this never fails.
pub fn batch_decrypt_compact_orchard(
    ivks: &Vec<OrchardIvkBytes>,
    actions: &Vec<CheckedAction>,
    txids: &Vec<Vec<u8>>,
) -> (r: Vec<DecryptHit>)
    requires
        forall|i: int| 0 <= i < ivks@.len() ==> (#[trigger] ivks@[i]).valid(),
        forall|i: int| 0 <= i < actions@.len() ==> (#[trigger] actions@[i])@.valid(),
        txids@.len() == actions@.len(),
    ensures
        hits_match(
            r@,
            orchard_trial_matches(
                orchard_ivk_views(ivks@),
                actions@.map_values(|a: CheckedAction| a@),
            ),
            txids@,
        ),
        orchard_trial_matches(
            orchard_ivk_views(ivks@),
            actions@.map_values(|a: CheckedAction| a@),
        ).len() == actions@.len(),
        ivks@.len() == 0 ==> r@.len() == 0,
{
    let matches = orchard_batch_decrypt(ivks, actions);
    proof {
        if ivks@.len() == 0 {
            assert(orchard_ivk_views(ivks@) =~= Seq::<Seq<u8>>::empty());
            lemma_no_flags_no_hits(matches@);
        }
    }
    collect_hits(&matches, txids)
}

/// Trial-decrypts one batch of pool-B records against the keys.
pub fn batch_decrypt_compact_sapling(
    ivks: &Vec<SaplingIvkBytes>,
    outputs: &Vec<CheckedOutput>,
    txids: &Vec<Vec<u8>>,
) -> (r: Vec<DecryptHit>)
    requires
        forall|i: int| 0 <= i < ivks@.len() ==> (#[trigger] ivks@[i]).valid(),
        forall|i: int| 0 <= i < outputs@.len() ==> (#[trigger] outputs@[i])@.valid(),
        txids@.len() == outputs@.len(),
    ensures
        hits_match(
            r@,
            sapling_trial_matches(
                sapling_ivk_views(ivks@),
                outputs@.map_values(|o: CheckedOutput| o@),
            ),
            txids@,
        ),
        sapling_trial_matches(
            sapling_ivk_views(ivks@),
            outputs@.map_values(|o: CheckedOutput| o@),
        ).len() == outputs@.len(),
        ivks@.len() == 0 ==> r@.len() == 0,
{
    let matches = sapling_batch_decrypt(ivks, outputs);
    proof {
        if ivks@.len() == 0 {
            assert(sapling_ivk_views(ivks@) =~= Seq::<Seq<u8>>::empty());
            lemma_no_flags_no_hits(matches@);
        }
    }
    collect_hits(&matches, txids)
}

/// Ordering law: hits come out in batch order — the match indices are
/// strictly increasing, so the hit list preserves the canonical leaf
/// order of its batch.
pub proof fn lemma_hits_ordered(matches: Seq<bool>, k1: int, k2: int)
    requires
        0 <= k1 < k2 < spec_hit_indices(matches).len(),
    ensures
        spec_hit_indices(matches)[k1] < spec_hit_indices(matches)[k2],
    decreases matches.len(),
{
    lemma_hit_indices_bounded(matches);
    if matches.len() > 0 {
        if k2 < spec_hit_indices(matches.drop_last()).len() {
            lemma_hits_ordered(matches.drop_last(), k1, k2);
        } else {
            lemma_hit_indices_bounded(matches.drop_last());
            if k1 < spec_hit_indices(matches.drop_last()).len() {
            } else {
                lemma_hits_ordered(matches.drop_last(), k1, k2);
            }
        }
    }
}

/// Every match index points into the batch.
pub proof fn lemma_hit_indices_bounded(matches: Seq<bool>)
    ensures
        forall|k: int|
            0 <= k < spec_hit_indices(matches).len() ==> 0 <= #[trigger] spec_hit_indices(
                matches,
            )[k] < matches.len(),
        spec_hit_indices(matches).len() <= matches.len(),
    decreases matches.len(),
{
    if matches.len() > 0 {
        lemma_hit_indices_bounded(matches.drop_last());
    }
}

/// No keys, no hits: when no match flag is set the hit index list is
/// empty.
pub proof fn lemma_no_flags_no_hits(matches: Seq<bool>)
    requires
        forall|i: int| 0 <= i < matches.len() ==> !matches[i],
    ensures
        spec_hit_indices(matches).len() == 0,
    decreases matches.len(),
{
    if matches.len() > 0 {
        lemma_no_flags_no_hits(matches.drop_last());
    }
}

/// Hit idempotence law: the hits of a batch are a function of the
/// keys, the records and their txids alone — two runs over the same
/// batch agree hit for hit.
pub proof fn lemma_hit_idempotence(
    r1: Seq<DecryptHit>,
    r2: Seq<DecryptHit>,
    matches: Seq<bool>,
    txids: Seq<Vec<u8>>,
)
    requires
        hits_match(r1, matches, txids),
        hits_match(r2, matches, txids),
    ensures
        r1.len() == r2.len(),
        forall|k: int|
            0 <= k < r1.len() ==> (#[trigger] r1[k]).index == r2[k].index && r1[k].txid@
                == r2[k].txid@,
{
}

/// Size in bytes of a full note memo.
pub const MEMO_SIZE: usize = 512;

/// Judges the outcome of one hit's full-ciphertext decryption, as the
/// memo-recovery path hands it back: a recovered memo must be the
/// full memo payload, and anything else — no decryption at all, or a
/// payload of the wrong size — is the per-hit `MemoDecryptFailure`,
/// which callers log and skip without aborting the run.
pub fn check_memo(memo: Option<Vec<u8>>) -> (r: Result<Vec<u8>, SyncError>)
    ensures
        r is Ok <==> (memo matches Some(m) && m@.len() == MEMO_SIZE),
        r matches Ok(m) ==> memo == Some(m),
        r matches Err(e) ==> e is MemoDecryptFailure,
{
    match memo {
        Some(m) => {
            if m.len() == MEMO_SIZE {
                Ok(m)
            } else {
                Err(SyncError::MemoDecryptFailure)
            }
        },
        None => Err(SyncError::MemoDecryptFailure),
    }
}

} // verus!
