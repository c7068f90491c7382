//! Hexadecimal decoding and frontier parsing.

use shielded_sync::SyncError;
use shielded_sync::encoding::{count_ones_u64, decode_hex, read_le_u64};
use shielded_sync::frontier::{parse_frontier_v0, ParsedFrontier};

#[test]
fn hex_decodes_exact_bytes() {
    assert_eq!(decode_hex(b"00ff10ab"), Some(vec![0x00, 0xff, 0x10, 0xab]));
    assert_eq!(decode_hex(b""), Some(vec![]));
    assert_eq!(decode_hex(b"AbCdEf"), Some(vec![0xab, 0xcd, 0xef]));
}

#[test]
fn hex_rejects_odd_and_bad_digits() {
    assert_eq!(decode_hex(b"abc"), None);
    assert_eq!(decode_hex(b"zz"), None);
    assert_eq!(decode_hex(b"0g"), None);
}

#[test]
fn hex_agrees_with_reference_decoder() {
    let samples: [&[u8]; 6] = [b"", b"00", b"deadbeef", b"0123456789abcdefABCDEF00", b"f", b"q0"];
    for s in samples {
        let ours = decode_hex(s);
        let theirs = hex::decode(s).ok();
        assert_eq!(ours, theirs);
    }
}

#[test]
fn little_endian_u64() {
    assert_eq!(read_le_u64(&[1, 0, 0, 0, 0, 0, 0, 0]), 1);
    assert_eq!(read_le_u64(&[0, 0, 0, 0, 0, 0, 0, 0x80]), 0x8000_0000_0000_0000);
    assert_eq!(read_le_u64(&[0x34, 0x12, 0, 0, 0, 0, 0, 0, 0xff]), 0x1234);
}

#[test]
fn popcount_matches_binary_weight() {
    assert_eq!(count_ones_u64(0), 0);
    assert_eq!(count_ones_u64(1), 1);
    assert_eq!(count_ones_u64(5), 2);
    assert_eq!(count_ones_u64(u64::MAX), 64);
    assert_eq!(count_ones_u64(0b1011_0110), 5);
}

fn frontier_bytes(position: u64, leaf: [u8; 32], ommers: &[[u8; 32]]) -> Vec<u8> {
    let mut out = Vec::new();
    out.extend_from_slice(&position.to_le_bytes());
    out.push(1);
    out.extend_from_slice(&leaf);
    out.push(ommers.len() as u8);
    for o in ommers {
        out.extend_from_slice(o);
    }
    out
}

#[test]
fn empty_frontier_parses() {
    let mut bytes = vec![0u8; 9];
    match parse_frontier_v0(&bytes, 32) {
        Ok(ParsedFrontier::Empty) => (),
        other => panic!("expected the empty frontier, got {:?}", other),
    }
    // a nonzero position with the empty tag is malformed
    bytes[0] = 1;
    assert_eq!(parse_frontier_v0(&bytes, 32).unwrap_err(), SyncError::MissingFrontier);
}

#[test]
fn present_frontier_parses_with_ommer_count_law() {
    // position 5 = 0b101 has two one bits, so exactly two ommers
    let leaf = [7u8; 32];
    let ommers = [[1u8; 32], [2u8; 32]];
    let bytes = frontier_bytes(5, leaf, &ommers);
    match parse_frontier_v0(&bytes, 32) {
        Ok(ParsedFrontier::Present(fd)) => {
            assert_eq!(fd.position, 5);
            assert_eq!(fd.leaf, leaf.to_vec());
            assert_eq!(fd.ommers, vec![[1u8; 32].to_vec(), [2u8; 32].to_vec()]);
        },
        other => panic!("expected a parsed frontier, got {:?}", other),
    }

    // one ommer too few
    let bad = frontier_bytes(5, leaf, &[[1u8; 32]]);
    assert_eq!(parse_frontier_v0(&bad, 32).unwrap_err(), SyncError::MissingFrontier);
}

#[test]
fn frontier_position_bound_is_enforced() {
    // position 2^32 does not fit a tree of depth 32
    let position: u64 = 1 << 32;
    let ommers = [[3u8; 32]];
    let bytes = frontier_bytes(position, [9u8; 32], &ommers);
    assert_eq!(parse_frontier_v0(&bytes, 32).unwrap_err(), SyncError::MissingFrontier);
    // the same frontier is fine for a deeper tree
    assert!(parse_frontier_v0(&bytes, 33).is_ok());
}

#[test]
fn truncated_frontier_is_refused() {
    let bytes = frontier_bytes(5, [7u8; 32], &[[1u8; 32], [2u8; 32]]);
    assert_eq!(parse_frontier_v0(&bytes[..bytes.len() - 1], 32).unwrap_err(), SyncError::MissingFrontier);
    assert_eq!(parse_frontier_v0(&bytes[..8], 32).unwrap_err(), SyncError::MissingFrontier);
    let mut extra = bytes.clone();
    extra.push(0);
    assert_eq!(parse_frontier_v0(&extra, 32).unwrap_err(), SyncError::MissingFrontier);
}
