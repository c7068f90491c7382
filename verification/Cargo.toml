[package]
name = "shielded_sync"
version = "0.1.0"
edition = "2021"
publish = false

[dependencies]
incrementalmerkletree = "=0.8.2"
shardtree = "=0.7.1"
orchard = "=0.15.5"
sapling-crypto = "=0.7.0"
zcash_note_encryption = "=0.4.2"
zcash_keys = { version = "=0.16.1", features = ["orchard", "sapling"] }
zcash_protocol = "=0.10.6"
jubjub = "=0.10.0"
rand = "=0.8.8"
rayon = "=1.12.0"
serde = { version = "=1.0.229", features = ["derive"] }
hex = "=0.4.3"
