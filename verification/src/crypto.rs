//! Trusted boundary to the pool cryptography crates.
//!
//! Everything here is either a name for a value that an outside
//! primitive computes, or a thin wrapper whose body makes one such call.
//! The rest of the engine is verified against these contracts.

use vstd::prelude::*;

verus! {

/// Copies a 32-byte slice into an array.
///
/// Relies on `TryInto` for fixed-size byte arrays.
#[verifier::external_body]
pub(crate) fn to_array_32(v: &[u8]) -> (r: [u8; 32])
    requires
        v@.len() == 32,
    ensures
        r@ == v@,
{
    v.try_into().unwrap()
}

/// Copies a 52-byte slice into an array.
///
/// Relies on `TryInto` for fixed-size byte arrays.
#[verifier::external_body]
pub(crate) fn to_array_52(v: &[u8]) -> (r: [u8; 52])
    requires
        v@.len() == 52,
    ensures
        r@ == v@,
{
    v.try_into().unwrap()
}

/// Whether 32 bytes are the canonical encoding of a pool-A note
/// commitment (a base field element of the pool-A curve).
pub uninterp spec fn orchard_cmx_canonical(b: Seq<u8>) -> bool;

/// Relies on `orchard::note::ExtractedNoteCommitment::from_bytes`,
/// which returns a value exactly for canonical encodings.
#[verifier::external_body]
pub(crate) fn orchard_cmx_check(b: &[u8]) -> (r: bool)
    requires
        b@.len() == 32,
    ensures
        r == orchard_cmx_canonical(b@),
{
    let arr: [u8; 32] = b.try_into().unwrap();
    bool::from(orchard::note::ExtractedNoteCommitment::from_bytes(&arr).is_some())
}

/// Whether 32 bytes are the canonical encoding of a pool-A nullifier.
pub uninterp spec fn orchard_nf_canonical(b: Seq<u8>) -> bool;

/// Relies on `orchard::note::Nullifier::from_bytes`, which returns a
/// value exactly for canonical encodings.
#[verifier::external_body]
pub(crate) fn orchard_nf_check(b: &[u8]) -> (r: bool)
    requires
        b@.len() == 32,
    ensures
        r == orchard_nf_canonical(b@),
{
    let arr: [u8; 32] = b.try_into().unwrap();
    bool::from(orchard::note::Nullifier::from_bytes(&arr).is_some())
}

/// Whether 32 bytes are the canonical encoding of a pool-B note
/// commitment (a base field element of the pool-B curve).
pub uninterp spec fn sapling_cmu_canonical(b: Seq<u8>) -> bool;

/// Relies on `sapling_crypto::note::ExtractedNoteCommitment::from_bytes`,
/// which returns a value exactly for canonical encodings.
#[verifier::external_body]
pub(crate) fn sapling_cmu_check(b: &[u8]) -> (r: bool)
    requires
        b@.len() == 32,
    ensures
        r == sapling_cmu_canonical(b@),
{
    let arr: [u8; 32] = b.try_into().unwrap();
    bool::from(sapling_crypto::note::ExtractedNoteCommitment::from_bytes(&arr).is_some())
}

/// Whether 32 bytes are the canonical encoding of a pool-A tree node
/// hash (a base field element, like a commitment).
pub uninterp spec fn orchard_hash_canonical(b: Seq<u8>) -> bool;

/// Relies on `orchard::tree::MerkleHashOrchard::from_bytes`, which
/// returns a value exactly for canonical encodings.
#[verifier::external_body]
pub(crate) fn orchard_hash_check(b: &[u8]) -> (r: bool)
    requires
        b@.len() == 32,
    ensures
        r == orchard_hash_canonical(b@),
{
    let arr: [u8; 32] = b.try_into().unwrap();
    bool::from(orchard::tree::MerkleHashOrchard::from_bytes(&arr).is_some())
}

/// Whether 32 bytes are the canonical encoding of a pool-B tree node
/// hash.
pub uninterp spec fn sapling_hash_canonical(b: Seq<u8>) -> bool;

/// Relies on `sapling_crypto::Node::from_bytes`, which returns a value
/// exactly for canonical encodings.
#[verifier::external_body]
pub(crate) fn sapling_hash_check(b: &[u8]) -> (r: bool)
    requires
        b@.len() == 32,
    ensures
        r == sapling_hash_canonical(b@),
{
    let arr: [u8; 32] = b.try_into().unwrap();
    bool::from(sapling_crypto::Node::from_bytes(arr).is_some())
}

/// Whether 64 bytes are the raw encoding of a pool-A incoming viewing
/// key (the second half must encode a nonzero canonical base element).
pub uninterp spec fn orchard_ivk_valid(b: Seq<u8>) -> bool;

/// Relies on `orchard::keys::IncomingViewingKey::from_bytes`, which
/// parses exactly the well-formed raw encodings.
#[verifier::external_body]
pub(crate) fn orchard_ivk_check(b: &[u8; 64]) -> (r: bool)
    ensures
        r == orchard_ivk_valid(b@),
{
    bool::from(orchard::keys::IncomingViewingKey::from_bytes(b).is_some())
}

/// Whether 32 bytes are the canonical encoding of a pool-B incoming
/// viewing key (a scalar of the pool-B curve).
pub uninterp spec fn sapling_ivk_valid(b: Seq<u8>) -> bool;

/// Relies on `jubjub::Fr::from_bytes`, which returns a value exactly
/// for canonical scalar encodings; a pool-B incoming viewing key is
/// such a scalar. An encoding whose top five bits are clear spells a
/// value below two to the 251st, which is below the scalar modulus,
/// so it is always canonical.
#[verifier::external_body]
pub(crate) fn sapling_ivk_check(b: &[u8; 32]) -> (r: bool)
    ensures
        r == sapling_ivk_valid(b@),
        b@[31] < 8 ==> r,
{
    bool::from(jubjub::Fr::from_bytes(b).is_some())
}

/// The raw incoming viewing key derived from a pool-A spending key, or
/// nothing when the 32 bytes are not a valid spending key.
pub uninterp spec fn orchard_ivk_of_sk(sk: Seq<u8>) -> Option<Seq<u8>>;

/// Relies on `orchard::keys::SpendingKey::from_bytes` (valid for all
/// but a negligible, fixed set of byte strings), on the full-viewing-key
/// derivation, and on `IncomingViewingKey::to_bytes`, whose output
/// `from_bytes` accepts again.
#[verifier::external_body]
pub(crate) fn orchard_ivk_from_sk(sk: &[u8; 32]) -> (r: Option<[u8; 64]>)
    ensures
        r is Some <==> orchard_ivk_of_sk(sk@) is Some,
        r matches Some(k) ==> orchard_ivk_of_sk(sk@) == Some(k@) && orchard_ivk_valid(k@),
{
    let sk: Option<orchard::keys::SpendingKey> = orchard::keys::SpendingKey::from_bytes(
        *sk,
    ).into();
    sk.map(
        |sk|
            orchard::keys::FullViewingKey::from(&sk).to_ivk(
                orchard::keys::Scope::External,
            ).to_bytes(),
    )
}

} // verus!
