//! The in-memory compact-block model and its wire validation.
//!
//! A compact block is a block stripped down to what trial decryption and
//! tree maintenance need: per-transaction lists of spends, pool-B outputs
//! and pool-A actions, each output or action carrying a 32-byte note
//! commitment, a 32-byte ephemeral key and a 52-byte compact ciphertext.
//!
//! Validation checks exact byte lengths here, and canonicity of the
//! scalar fields through the pool primitives; a record that fails either
//! check is `MalformedCompactRecord`.

use vstd::prelude::*;

use crate::SyncError;
use crate::crypto::{orchard_cmx_canonical, orchard_nf_canonical, sapling_cmu_canonical};
use crate::crypto::{orchard_cmx_check, orchard_nf_check, sapling_cmu_check};

verus! {

/// Size in bytes of a compact note ciphertext, for both pools.
pub const COMPACT_CIPHERTEXT_SIZE: usize = 52;

/// Mathematical image of a compact pool-B spend.
pub struct SpendView {
    pub nf: Seq<u8>,
}

/// Mathematical image of a compact pool-B output.
pub struct OutputView {
    pub cmu: Seq<u8>,
    pub ephemeral_key: Seq<u8>,
    pub ciphertext: Seq<u8>,
}

/// Mathematical image of a compact pool-A action.
pub struct ActionView {
    pub nullifier: Seq<u8>,
    pub cmx: Seq<u8>,
    pub ephemeral_key: Seq<u8>,
    pub ciphertext: Seq<u8>,
}

/// Mathematical image of a compact transaction.
pub struct TxView {
    pub index: u64,
    pub hash: Seq<u8>,
    pub fee: u32,
    pub spends: Seq<SpendView>,
    pub outputs: Seq<OutputView>,
    pub actions: Seq<ActionView>,
}

/// Mathematical image of a compact block.
pub struct BlockView {
    pub height: u64,
    pub vtx: Seq<TxView>,
}

impl OutputView {
    /// Field lengths as the wire schema fixes them.
    pub open spec fn structural(self) -> bool {
        &&& self.cmu.len() == 32
        &&& self.ephemeral_key.len() == 32
        &&& self.ciphertext.len() == COMPACT_CIPHERTEXT_SIZE
    }

    /// Structure plus canonicity of the commitment scalar.
    pub open spec fn valid(self) -> bool {
        &&& self.structural()
        &&& sapling_cmu_canonical(self.cmu)
    }
}

impl ActionView {
    /// Field lengths as the wire schema fixes them.
    pub open spec fn structural(self) -> bool {
        &&& self.nullifier.len() == 32
        &&& self.cmx.len() == 32
        &&& self.ephemeral_key.len() == 32
        &&& self.ciphertext.len() == COMPACT_CIPHERTEXT_SIZE
    }

    /// Structure plus canonicity of the two scalar fields.
    pub open spec fn valid(self) -> bool {
        &&& self.structural()
        &&& orchard_cmx_canonical(self.cmx)
        &&& orchard_nf_canonical(self.nullifier)
    }
}

/// A compact pool-B spend: just the nullifier of the spent note.
#[derive(Clone, Debug)]
pub struct CompactSaplingSpend {
    pub nf: Vec<u8>,
}

/// A compact pool-B output: the data needed to trial-decrypt one note
/// and insert its commitment (`cmu`) into the pool-B tree.
#[derive(Clone, Debug)]
pub struct CompactSaplingOutput {
    pub cmu: Vec<u8>,
    pub ephemeral_key: Vec<u8>,
    pub ciphertext: Vec<u8>,
}

/// A compact pool-A action: the data needed to trial-decrypt one note
/// and insert its commitment (`cmx`) into the pool-A tree, plus the
/// nullifier of the note the action spends.
#[derive(Clone, Debug)]
pub struct CompactOrchardAction {
    pub nullifier: Vec<u8>,
    pub cmx: Vec<u8>,
    pub ephemeral_key: Vec<u8>,
    pub ciphertext: Vec<u8>,
}

/// A compact transaction; the order of `outputs` and `actions` is part
/// of the canonical leaf order.
#[derive(Clone, Debug)]
pub struct CompactTx {
    pub index: u64,
    pub hash: Vec<u8>,
    pub fee: u32,
    pub spends: Vec<CompactSaplingSpend>,
    pub outputs: Vec<CompactSaplingOutput>,
    pub actions: Vec<CompactOrchardAction>,
}

/// A compact block: its height and its transactions in index order.
#[derive(Clone, Debug)]
pub struct CompactBlock {
    pub height: u64,
    pub vtx: Vec<CompactTx>,
}

impl View for CompactSaplingSpend {
    type V = SpendView;

    open spec fn view(&self) -> SpendView {
        SpendView { nf: self.nf@ }
    }
}

impl View for CompactSaplingOutput {
    type V = OutputView;

    open spec fn view(&self) -> OutputView {
        OutputView {
            cmu: self.cmu@,
            ephemeral_key: self.ephemeral_key@,
            ciphertext: self.ciphertext@,
        }
    }
}

impl View for CompactOrchardAction {
    type V = ActionView;

    open spec fn view(&self) -> ActionView {
        ActionView {
            nullifier: self.nullifier@,
            cmx: self.cmx@,
            ephemeral_key: self.ephemeral_key@,
            ciphertext: self.ciphertext@,
        }
    }
}

impl View for CompactTx {
    type V = TxView;

    open spec fn view(&self) -> TxView {
        TxView {
            index: self.index,
            hash: self.hash@,
            fee: self.fee,
            spends: self.spends@.map_values(|s: CompactSaplingSpend| s@),
            outputs: self.outputs@.map_values(|o: CompactSaplingOutput| o@),
            actions: self.actions@.map_values(|a: CompactOrchardAction| a@),
        }
    }
}

impl View for CompactBlock {
    type V = BlockView;

    open spec fn view(&self) -> BlockView {
        BlockView { height: self.height, vtx: self.vtx@.map_values(|t: CompactTx| t@) }
    }
}

impl CompactSaplingSpend {
    pub fn create(nf: Vec<u8>) -> (r: CompactSaplingSpend)
        ensures
            r.nf == nf,
    {
        CompactSaplingSpend { nf }
    }
}

impl CompactSaplingOutput {
    /// Field lengths as the wire schema fixes them.
    pub open spec fn structural(self) -> bool {
        self@.structural()
    }

    /// Structure plus canonicity of the commitment scalar: what the
    /// conversion into the pool-B primitives accepts.
    pub open spec fn valid(self) -> bool {
        self@.valid()
    }

    pub fn create(cmu: Vec<u8>, ephemeral_key: Vec<u8>, ciphertext: Vec<u8>) -> (r:
        CompactSaplingOutput)
        ensures
            r.cmu == cmu,
            r.ephemeral_key == ephemeral_key,
            r.ciphertext == ciphertext,
    {
        CompactSaplingOutput { cmu, ephemeral_key, ciphertext }
    }

    /// Wire validation: `Ok` exactly when the lengths are right and the
    /// commitment is a canonical scalar encoding.
    pub fn check(&self) -> (r: Result<(), SyncError>)
        ensures
            r is Ok <==> self.valid(),
            r matches Err(e) ==> e is MalformedCompactRecord,
    {
        if self.cmu.len() != 32 || self.ephemeral_key.len() != 32 || self.ciphertext.len()
            != COMPACT_CIPHERTEXT_SIZE {
            return Err(SyncError::MalformedCompactRecord);
        }
        if !sapling_cmu_check(self.cmu.as_slice()) {
            return Err(SyncError::MalformedCompactRecord);
        }
        Ok(())
    }
}

impl CompactOrchardAction {
    /// Field lengths as the wire schema fixes them.
    pub open spec fn structural(self) -> bool {
        self@.structural()
    }

    /// Structure plus canonicity of the two scalar fields: what the
    /// conversion into the pool-A primitives accepts.
    pub open spec fn valid(self) -> bool {
        self@.valid()
    }

    pub fn create(nullifier: Vec<u8>, cmx: Vec<u8>, ephemeral_key: Vec<u8>, ciphertext: Vec<u8>)
        -> (r: CompactOrchardAction)
        ensures
            r.nullifier == nullifier,
            r.cmx == cmx,
            r.ephemeral_key == ephemeral_key,
            r.ciphertext == ciphertext,
    {
        CompactOrchardAction { nullifier, cmx, ephemeral_key, ciphertext }
    }

    /// Wire validation: `Ok` exactly when the lengths are right and both
    /// scalar fields are canonical encodings.
    pub fn check(&self) -> (r: Result<(), SyncError>)
        ensures
            r is Ok <==> self.valid(),
            r matches Err(e) ==> e is MalformedCompactRecord,
    {
        if self.nullifier.len() != 32 || self.cmx.len() != 32 || self.ephemeral_key.len() != 32
            || self.ciphertext.len() != COMPACT_CIPHERTEXT_SIZE {
            return Err(SyncError::MalformedCompactRecord);
        }
        if !orchard_cmx_check(self.cmx.as_slice()) {
            return Err(SyncError::MalformedCompactRecord);
        }
        if !orchard_nf_check(self.nullifier.as_slice()) {
            return Err(SyncError::MalformedCompactRecord);
        }
        Ok(())
    }
}

/// A pool-B output that passed wire validation, with its fields at
/// their exact sizes.
#[derive(Clone, Copy, Debug)]
pub struct CheckedOutput {
    pub cmu: [u8; 32],
    pub ephemeral_key: [u8; 32],
    pub ciphertext: [u8; 52],
}

impl View for CheckedOutput {
    type V = OutputView;

    open spec fn view(&self) -> OutputView {
        OutputView {
            cmu: self.cmu@,
            ephemeral_key: self.ephemeral_key@,
            ciphertext: self.ciphertext@,
        }
    }
}

/// A pool-A action that passed wire validation, with its fields at
/// their exact sizes.
#[derive(Clone, Copy, Debug)]
pub struct CheckedAction {
    pub nullifier: [u8; 32],
    pub cmx: [u8; 32],
    pub ephemeral_key: [u8; 32],
    pub ciphertext: [u8; 52],
}

impl View for CheckedAction {
    type V = ActionView;

    open spec fn view(&self) -> ActionView {
        ActionView {
            nullifier: self.nullifier@,
            cmx: self.cmx@,
            ephemeral_key: self.ephemeral_key@,
            ciphertext: self.ciphertext@,
        }
    }
}

impl CompactSaplingOutput {
    /// Converts a validated output into its exact-size form.
    pub fn to_checked(&self) -> (r: CheckedOutput)
        requires
            self@.structural(),
        ensures
            r@ == self@,
    {
        CheckedOutput {
            cmu: crate::crypto::to_array_32(self.cmu.as_slice()),
            ephemeral_key: crate::crypto::to_array_32(self.ephemeral_key.as_slice()),
            ciphertext: crate::crypto::to_array_52(self.ciphertext.as_slice()),
        }
    }
}

impl CompactOrchardAction {
    /// Converts a validated action into its exact-size form.
    pub fn to_checked(&self) -> (r: CheckedAction)
        requires
            self@.structural(),
        ensures
            r@ == self@,
    {
        CheckedAction {
            nullifier: crate::crypto::to_array_32(self.nullifier.as_slice()),
            cmx: crate::crypto::to_array_32(self.cmx.as_slice()),
            ephemeral_key: crate::crypto::to_array_32(self.ephemeral_key.as_slice()),
            ciphertext: crate::crypto::to_array_52(self.ciphertext.as_slice()),
        }
    }
}

impl CompactTx {
    pub fn create(
        index: u64,
        hash: Vec<u8>,
        fee: u32,
        spends: Vec<CompactSaplingSpend>,
        outputs: Vec<CompactSaplingOutput>,
        actions: Vec<CompactOrchardAction>,
    ) -> (r: CompactTx)
        ensures
            r.index == index,
            r.hash == hash,
            r.fee == fee,
            r.spends == spends,
            r.outputs == outputs,
            r.actions == actions,
    {
        CompactTx { index, hash, fee, spends, outputs, actions }
    }
}

} // verus!
