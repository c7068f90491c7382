//! Parsing of serialized tree frontiers.
//!
//! A frontier is the minimal right-edge data of a note-commitment tree:
//! the position of the last inserted leaf, that leaf's hash, and one
//! 32-byte ommer hash for every one bit in the binary representation of
//! the position. The server transmits it in a byte format laid out as:
//!
//! * bytes 0..8 — the leaf position, little endian;
//! * byte 8 — a presence tag: `0` for the empty tree (the position must
//!   then be `0` and no further bytes follow), `1` otherwise;
//! * bytes 9..41 — the leaf hash;
//! * byte 41 — the ommer count, which must equal the number of one bits
//!   of the position;
//! * 32 bytes per ommer after that, and nothing else.
//!
//! A frontier whose position does not fit in a tree of the stated depth
//! is rejected.

use vstd::prelude::*;

use crate::SyncError;
use crate::encoding::{le_u64, pop_count, count_ones_u64, read_le_u64, pow2_u128};

verus! {

/// The parsed right edge of a non-empty tree.
#[derive(Clone, Debug)]
pub struct FrontierData {
    /// Position of the last inserted leaf.
    pub position: u64,
    /// Hash of the leaf at `position`; 32 bytes.
    pub leaf: Vec<u8>,
    /// Right-edge ommer hashes, lowest level first; 32 bytes each, one
    /// for each one bit of `position`.
    pub ommers: Vec<Vec<u8>>,
}

/// A parsed frontier: either the empty tree or a right edge.
#[derive(Clone, Debug)]
pub enum ParsedFrontier {
    Empty,
    Present(FrontierData),
}

/// Mathematical image of a parsed non-empty frontier.
pub struct FrontierView {
    pub position: u64,
    pub leaf: Seq<u8>,
    pub ommers: Seq<Seq<u8>>,
}

impl View for FrontierData {
    type V = FrontierView;

    open spec fn view(&self) -> FrontierView {
        FrontierView {
            position: self.position,
            leaf: self.leaf@,
            ommers: self.ommers.deep_view(),
        }
    }
}

impl FrontierData {
    /// Structural soundness for a tree of depth `depth`: field lengths,
    /// the ommer count law, and the position bound.
    pub open spec fn wf(self, depth: nat) -> bool {
        &&& self.leaf@.len() == 32
        &&& self.ommers@.len() == pop_count(self.position as nat)
        &&& (forall|i: int| 0 <= i < self.ommers@.len() ==> (#[trigger] self.ommers@[i])@.len()
            == 32)
        &&& (self.position as nat) < vstd::arithmetic::power2::pow2(depth)
    }

    /// The position the first leaf inserted after this frontier gets.
    pub open spec fn spec_next_position(self) -> nat {
        self.position as nat + 1
    }
}

impl ParsedFrontier {
    /// Structural soundness for a tree of depth `depth`.
    pub open spec fn wf(self, depth: nat) -> bool {
        match self {
            ParsedFrontier::Empty => true,
            ParsedFrontier::Present(fd) => fd.wf(depth),
        }
    }

    /// The position the first leaf inserted after this frontier gets:
    /// zero for the empty tree.
    pub open spec fn spec_next_position(self) -> nat {
        match self {
            ParsedFrontier::Empty => 0,
            ParsedFrontier::Present(fd) => fd.spec_next_position(),
        }
    }
}

/// Whether `s` is the serialization of the empty-tree frontier.
pub open spec fn frontier_bytes_empty(s: Seq<u8>) -> bool {
    &&& s.len() == 9
    &&& le_u64(s) == 0
    &&& s[8] == 0
}

/// Whether `s` is a well-formed serialization of a non-empty frontier
/// for a tree of depth `depth`.
pub open spec fn frontier_bytes_present(s: Seq<u8>, depth: nat) -> bool {
    &&& s.len() >= 42
    &&& s[8] == 1
    &&& le_u64(s) < vstd::arithmetic::power2::pow2(depth)
    &&& s[41] == pop_count(le_u64(s))
    &&& s.len() == 42 + 32 * s[41]
}

/// The ommer hashes spelled out in a well-formed non-empty frontier
/// serialization.
pub open spec fn frontier_bytes_ommers(s: Seq<u8>) -> Seq<Seq<u8>> {
    Seq::new(s[41] as nat, |i: int| s.subrange(42 + 32 * i, 74 + 32 * i))
}

/// Parses a serialized frontier for a tree of depth `depth`.
///
/// Exactly the well-formed serializations are accepted; everything else
/// is `MissingFrontier` (no usable frontier was obtained).
pub fn parse_frontier_v0(bytes: &[u8], depth: u8) -> (r: Result<ParsedFrontier, SyncError>)
    requires
        depth <= 64,
    ensures
        r is Ok <==> frontier_bytes_empty(bytes@) || frontier_bytes_present(
            bytes@,
            depth as nat,
        ),
        r matches Ok(pf) ==> {
            &&& pf.wf(depth as nat)
            &&& (pf is Empty <==> frontier_bytes_empty(bytes@))
            &&& (pf matches ParsedFrontier::Present(fd) ==> {
                &&& fd.position == le_u64(bytes@)
                &&& fd.leaf@ == bytes@.subrange(9, 41)
                &&& fd.ommers.deep_view() == frontier_bytes_ommers(bytes@)
            })
        },
        r matches Err(e) ==> e is MissingFrontier,
{
    if bytes.len() < 9 {
        return Err(SyncError::MissingFrontier);
    }
    let position = read_le_u64(bytes);
    let tag = bytes[8];
    if tag == 0 {
        if position == 0 && bytes.len() == 9 {
            Ok(ParsedFrontier::Empty)
        } else {
            Err(SyncError::MissingFrontier)
        }
    } else if tag == 1 {
        if bytes.len() < 42 {
            return Err(SyncError::MissingFrontier);
        }
        let count = bytes[41];
        if count as u32 != count_ones_u64(position) {
            return Err(SyncError::MissingFrontier);
        }
        if (position as u128) >= pow2_u128(depth) {
            return Err(SyncError::MissingFrontier);
        }
        if bytes.len() != 42 + 32 * (count as usize) {
            return Err(SyncError::MissingFrontier);
        }
        let leaf = vstd::slice::slice_to_vec(vstd::slice::slice_subrange(bytes, 9, 41));
        let mut ommers: Vec<Vec<u8>> = Vec::new();
        let mut i: usize = 0;
        while i < count as usize
            invariant
                bytes@.len() == 42 + 32 * count,
                count == bytes@[41],
                i <= count,
                ommers@.len() == i,
                forall|k: int| 0 <= k < i ==> (#[trigger] ommers@[k])@ == frontier_bytes_ommers(
                    bytes@,
                )[k],
            decreases count - i,
        {
            let start = 42 + 32 * i;
            let o = vstd::slice::slice_to_vec(vstd::slice::slice_subrange(bytes, start, start + 32));
            proof {
                assert(o@ == frontier_bytes_ommers(bytes@)[i as int]);
            }
            ommers.push(o);
            i = i + 1;
        }
        proof {
            let ghost target = frontier_bytes_ommers(bytes@);
            assert forall|k: int| 0 <= k < count implies ommers.deep_view()[k] == target[k] by {
                assert(ommers.deep_view()[k] == ommers@[k].deep_view());
                assert(ommers@[k].deep_view() =~= ommers@[k]@);
            }
            assert(ommers.deep_view() =~= target);
        }
        Ok(ParsedFrontier::Present(FrontierData { position, leaf, ommers }))
    } else {
        Err(SyncError::MissingFrontier)
    }
}

} // verus!
