//! Configuration for a synchronization run: target network, pool
//! selection, height range, and batching.
//!
//! The height range is half-open: `start_block` is the first height that
//! is scanned and `end_block` is the first height that is not. A
//! configuration with `end_block < start_block` is impossible and is
//! refused at entry.

use vstd::prelude::*;

verus! {

/// The ledger network a run is directed at; it selects the key-encoding
/// prefixes the (external) viewing-key decoder uses.
#[derive(Clone, Copy, Debug, PartialEq, Eq, Structural)]
pub enum Network {
    Mainnet,
    Testnet,
}

/// Which of the two anonymity pools a run scans.
///
/// Pool B is the pool whose compact records are `outputs` (commitment
/// `cmu`); pool A is the pool whose compact records are `actions`
/// (commitment `cmx`, plus a nullifier).
#[derive(Clone, Copy, Debug, PartialEq, Eq, Structural)]
pub enum ShieldedPool {
    Sapling,
    Orchard,
    Both,
}

impl Network {
    /// Spec of `from_str`: which strings name a network.
    pub open spec fn spec_from_str(s: Seq<char>) -> Option<Network> {
        if s == "mainnet"@ {
            Some(Network::Mainnet)
        } else if s == "testnet"@ {
            Some(Network::Testnet)
        } else {
            None
        }
    }

    /// Parses a network name; every string other than the two known
    /// names is rejected.
    pub fn from_str(s: &str) -> (r: Option<Network>)
        ensures
            r == Network::spec_from_str(s@),
    {
        let owned = s.to_owned();
        if owned == "mainnet".to_owned() {
            Some(Network::Mainnet)
        } else if owned == "testnet".to_owned() {
            Some(Network::Testnet)
        } else {
            None
        }
    }
}

impl ShieldedPool {
    /// Spec of `from_str`: which strings name a pool selection.
    pub open spec fn spec_from_str(s: Seq<char>) -> Option<ShieldedPool> {
        if s == "sapling"@ {
            Some(ShieldedPool::Sapling)
        } else if s == "orchard"@ {
            Some(ShieldedPool::Orchard)
        } else if s == "both"@ {
            Some(ShieldedPool::Both)
        } else {
            None
        }
    }

    /// Parses a pool name; every string other than the three known
    /// names is rejected.
    pub fn from_str(s: &str) -> (r: Option<ShieldedPool>)
        ensures
            r == ShieldedPool::spec_from_str(s@),
    {
        let owned = s.to_owned();
        if owned == "sapling".to_owned() {
            Some(ShieldedPool::Sapling)
        } else if owned == "orchard".to_owned() {
            Some(ShieldedPool::Orchard)
        } else if owned == "both".to_owned() {
            Some(ShieldedPool::Both)
        } else {
            None
        }
    }

    /// Whether this selection scans pool B (compact outputs).
    pub fn sync_sapling(&self) -> (r: bool)
        ensures
            r == (self is Sapling || self is Both),
    {
        match self {
            ShieldedPool::Sapling => true,
            ShieldedPool::Orchard => false,
            ShieldedPool::Both => true,
        }
    }

    /// Whether this selection scans pool A (compact actions).
    pub fn sync_orchard(&self) -> (r: bool)
        ensures
            r == (self is Orchard || self is Both),
    {
        match self {
            ShieldedPool::Sapling => false,
            ShieldedPool::Orchard => true,
            ShieldedPool::Both => true,
        }
    }
}

/// Global parameters shared by every run of the engine.
#[derive(Clone, Debug)]
pub struct BenchParams {
    pub network: Network,
    pub pool: ShieldedPool,
    pub lightwalletd_url: String,
    pub start_block: u32,
    pub end_block: u32,
    pub block_batch_size: u32,
}

impl BenchParams {
    /// A parameter set is well formed when its height range `[start, end)`
    /// is not inverted and a batch has at least one block.
    pub open spec fn wf(self) -> bool {
        &&& self.start_block <= self.end_block
        &&& self.block_batch_size >= 1
    }

    /// Builds a parameter set from the textual network and pool names.
    ///
    /// The caller must pass known names and a possible range; `try_new`
    /// is the checked form.
    pub fn new(
        network: String,
        pool: String,
        lightwalletd_url: String,
        start_block: u32,
        end_block: u32,
        block_batch_size: u32,
    ) -> (r: BenchParams)
        requires
            Network::spec_from_str(network@) is Some,
            ShieldedPool::spec_from_str(pool@) is Some,
            start_block <= end_block,
            block_batch_size >= 1,
        ensures
            r.wf(),
            Network::spec_from_str(network@) == Some(r.network),
            ShieldedPool::spec_from_str(pool@) == Some(r.pool),
            r.lightwalletd_url == lightwalletd_url,
            r.start_block == start_block,
            r.end_block == end_block,
            r.block_batch_size == block_batch_size,
    {
        let network = Network::from_str(network.as_str()).unwrap();
        let pool = ShieldedPool::from_str(pool.as_str()).unwrap();
        BenchParams { network, pool, lightwalletd_url, start_block, end_block, block_batch_size }
    }

    /// Checked constructor: rejects unknown names and impossible ranges
    /// with `ConfigInvalid`, and accepts everything else.
    pub fn try_new(
        network: String,
        pool: String,
        lightwalletd_url: String,
        start_block: u32,
        end_block: u32,
        block_batch_size: u32,
    ) -> (r: Result<BenchParams, crate::SyncError>)
        ensures
            r is Ok <==> {
                &&& Network::spec_from_str(network@) is Some
                &&& ShieldedPool::spec_from_str(pool@) is Some
                &&& start_block <= end_block
                &&& block_batch_size >= 1
            },
            r matches Ok(p) ==> {
                &&& p.wf()
                &&& Network::spec_from_str(network@) == Some(p.network)
                &&& ShieldedPool::spec_from_str(pool@) == Some(p.pool)
                &&& p.lightwalletd_url == lightwalletd_url
                &&& p.start_block == start_block
                &&& p.end_block == end_block
                &&& p.block_batch_size == block_batch_size
            },
            r matches Err(e) ==> e is ConfigInvalid,
    {
        let nw = Network::from_str(network.as_str());
        let pl = ShieldedPool::from_str(pool.as_str());
        match (nw, pl) {
            (Some(network), Some(pool)) => {
                if start_block <= end_block && block_batch_size >= 1 {
                    Ok(BenchParams {
                        network,
                        pool,
                        lightwalletd_url,
                        start_block,
                        end_block,
                        block_batch_size,
                    })
                } else {
                    Err(crate::SyncError::ConfigInvalid)
                }
            },
            _ => Err(crate::SyncError::ConfigInvalid),
        }
    }
}

} // verus!
