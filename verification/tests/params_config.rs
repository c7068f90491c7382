//! Configuration parsing and validation.

use shielded_sync::SyncError;
use shielded_sync::params::{BenchParams, Network, ShieldedPool};

#[test]
fn network_names_parse() {
    assert_eq!(Network::from_str("mainnet"), Some(Network::Mainnet));
    assert_eq!(Network::from_str("testnet"), Some(Network::Testnet));
    assert_eq!(Network::from_str("Mainnet"), None);
    assert_eq!(Network::from_str(""), None);
}

#[test]
fn pool_names_parse() {
    assert_eq!(ShieldedPool::from_str("sapling"), Some(ShieldedPool::Sapling));
    assert_eq!(ShieldedPool::from_str("orchard"), Some(ShieldedPool::Orchard));
    assert_eq!(ShieldedPool::from_str("both"), Some(ShieldedPool::Both));
    assert_eq!(ShieldedPool::from_str("none"), None);
}

#[test]
fn pool_selection_flags() {
    assert!(ShieldedPool::Sapling.sync_sapling());
    assert!(!ShieldedPool::Sapling.sync_orchard());
    assert!(!ShieldedPool::Orchard.sync_sapling());
    assert!(ShieldedPool::Orchard.sync_orchard());
    assert!(ShieldedPool::Both.sync_sapling());
    assert!(ShieldedPool::Both.sync_orchard());
}

#[test]
fn params_construction() {
    let p = BenchParams::new(
        "mainnet".to_string(),
        "both".to_string(),
        "http://localhost:9067".to_string(),
        1_702_104,
        1_702_204,
        100,
    );
    assert_eq!(p.start_block, 1_702_104);
    assert_eq!(p.end_block, 1_702_204);
    assert_eq!(p.block_batch_size, 100);
    assert_eq!(p.pool, ShieldedPool::Both);
}

#[test]
fn error_labels_name_each_kind() {
    assert_eq!(SyncError::TransportFatal.label(), "transport fatal");
    assert_eq!(SyncError::MalformedCompactRecord.label(), "malformed compact record");
    assert_eq!(SyncError::MissingFrontier.label(), "missing frontier");
    assert_eq!(
        SyncError::RootMismatch { expected: vec![], actual: vec![] }.label(),
        "root mismatch",
    );
    assert_eq!(SyncError::TreeInvariantBroken.label(), "tree invariant broken");
    assert_eq!(SyncError::MemoDecryptFailure.label(), "memo decrypt failure");
    assert_eq!(SyncError::ConfigInvalid.label(), "config invalid");
    assert_eq!(SyncError::RootUnverifiable.label(), "root unverifiable");
}

#[test]
fn params_rejects_bad_input() {
    let bad_pool = BenchParams::try_new(
        "mainnet".to_string(),
        "transparent".to_string(),
        String::new(),
        0,
        10,
        1,
    );
    assert_eq!(bad_pool.unwrap_err(), SyncError::ConfigInvalid);

    let inverted = BenchParams::try_new(
        "mainnet".to_string(),
        "both".to_string(),
        String::new(),
        10,
        9,
        1,
    );
    assert_eq!(inverted.unwrap_err(), SyncError::ConfigInvalid);

    let zero_batch = BenchParams::try_new(
        "testnet".to_string(),
        "orchard".to_string(),
        String::new(),
        5,
        10,
        0,
    );
    assert_eq!(zero_batch.unwrap_err(), SyncError::ConfigInvalid);

    let ok = BenchParams::try_new(
        "testnet".to_string(),
        "orchard".to_string(),
        String::new(),
        5,
        5,
        1,
    );
    assert!(ok.is_ok());
}
