//! Storage configuration and statistics for a node deployment: which paths
//! the backends live under, and counters describing what they hold.

use vstd::prelude::*;

verus! {

use crate::text::dec_digits;
use crate::text::u64_to_string;

/// Paths and limits for a node's storage backends. Paths are kept as plain
/// strings with `/` separators.
#[derive(Clone, Debug)]
pub struct StorageConfig {
    /// Path of the on-chain state database.
    pub rocksdb_path: String,
    /// Path of the event index, when event indexing is enabled.
    pub event_index_path: Option<String>,
    /// Cap on off-chain storage, in megabytes.
    pub max_offchain_size: u32,
    /// Whether events are indexed off-chain.
    pub enable_event_indexing: bool,
}

impl StorageConfig {
    /// The default layout for a testnet deployment under `base_path`.
    pub fn default_for_testnet(base_path: &str) -> (r: StorageConfig)
        ensures
            r.rocksdb_path@ == base_path@ + "/chains/local_testnet/db/full"@,
            (r.event_index_path matches Some(p) && p@ == base_path@
                + "/chains/local_testnet/event_index"@),
            r.max_offchain_size == 100,
            r.enable_event_indexing == true,
    {
        let mut rocksdb_path = String::from_str(base_path);
        rocksdb_path.append("/chains/local_testnet/db/full");
        let mut event_path = String::from_str(base_path);
        event_path.append("/chains/local_testnet/event_index");
        StorageConfig {
            rocksdb_path,
            event_index_path: Some(event_path),
            max_offchain_size: 100,
            enable_event_indexing: true,
        }
    }

    /// The default layout for a production deployment under `base_path`.
    pub fn default_for_production(base_path: &str) -> (r: StorageConfig)
        ensures
            r.rocksdb_path@ == base_path@ + "/chains/main/db/full"@,
            (r.event_index_path matches Some(p) && p@ == base_path@
                + "/chains/main/event_index"@),
            r.max_offchain_size == 1000,
            r.enable_event_indexing == true,
    {
        let mut rocksdb_path = String::from_str(base_path);
        rocksdb_path.append("/chains/main/db/full");
        let mut event_path = String::from_str(base_path);
        event_path.append("/chains/main/event_index");
        StorageConfig {
            rocksdb_path,
            event_index_path: Some(event_path),
            max_offchain_size: 1000,
            enable_event_indexing: true,
        }
    }
}

/// The storage backends a node may use.
pub enum StorageBackend {
    /// On-chain state, managed by the runtime host.
    RocksDB,
    /// Off-chain event indexing.
    DuckDB,
    /// Memory-mapped event cache.
    LMDB,
}

impl StorageBackend {
    /// A human-readable name of the backend.
    pub fn to_string(&self) -> (r: String)
        ensures
            match self {
                StorageBackend::RocksDB => r@ == "RocksDB (on-chain state)"@,
                StorageBackend::DuckDB => r@ == "DuckDB (event indexing)"@,
                StorageBackend::LMDB => r@ == "LMDB (in-memory cache)"@,
            },
    {
        match self {
            StorageBackend::RocksDB => String::from_str("RocksDB (on-chain state)"),
            StorageBackend::DuckDB => String::from_str("DuckDB (event indexing)"),
            StorageBackend::LMDB => String::from_str("LMDB (in-memory cache)"),
        }
    }
}

/// Counters describing what a node's storage holds.
#[derive(Clone, Debug, Default)]
pub struct StorageStats {
    /// Total blocks processed.
    pub blocks_processed: u64,
    /// Total on-chain state writes.
    pub state_writes: u64,
    /// Total off-chain events indexed.
    pub events_indexed: u64,
    /// Current on-chain database size, in megabytes.
    pub rocksdb_size_mb: u64,
    /// Current event index size, in megabytes.
    pub event_index_size_mb: u64,
}

impl StorageStats {
    /// A one-line rendering of all five counters.
    pub fn to_string(&self) -> (r: String)
        ensures
            r@ == "StorageStats { blocks: "@ + dec_digits(self.blocks_processed as nat)
                + ", writes: "@ + dec_digits(self.state_writes as nat) + ", events: "@
                + dec_digits(self.events_indexed as nat) + ", db: "@ + dec_digits(
                self.rocksdb_size_mb as nat,
            ) + "MB, index: "@ + dec_digits(self.event_index_size_mb as nat) + "MB }"@,
    {
        let mut r = String::from_str("StorageStats { blocks: ");
        let blocks = u64_to_string(self.blocks_processed);
        r.append(blocks.as_str());
        r.append(", writes: ");
        let writes = u64_to_string(self.state_writes);
        r.append(writes.as_str());
        r.append(", events: ");
        let events = u64_to_string(self.events_indexed);
        r.append(events.as_str());
        r.append(", db: ");
        let db = u64_to_string(self.rocksdb_size_mb);
        r.append(db.as_str());
        r.append("MB, index: ");
        let index = u64_to_string(self.event_index_size_mb);
        r.append(index.as_str());
        r.append("MB }");
        proof {
            assert(r@ =~= "StorageStats { blocks: "@ + dec_digits(self.blocks_processed as nat)
                + ", writes: "@ + dec_digits(self.state_writes as nat) + ", events: "@
                + dec_digits(self.events_indexed as nat) + ", db: "@ + dec_digits(
                self.rocksdb_size_mb as nat,
            ) + "MB, index: "@ + dec_digits(self.event_index_size_mb as nat) + "MB }"@);
        }
        r
    }
}

} // verus!
