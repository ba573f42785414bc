//! An in-process test harness for a blockchain framework: blocks are made on demand,
//! transactions go through a mempool, and network configuration changes are scheduled
//! and applied at the heights they name.

pub mod api;
pub mod blockchain;
pub mod channel;
pub mod config;
pub mod crypto;
pub mod mempool;
pub mod network;
pub mod node;
pub mod testkit;
pub mod types;

pub use api::ApiKind;
pub use blockchain::{Snapshot, Transaction};
pub use config::{ConsensusConfig, StoredConfiguration, TestNetworkConfiguration};
pub use crypto::{CryptoHash, PublicKey, SecretKey};
pub use mempool::Mempool;
pub use network::TestNetwork;
pub use node::{TestNode, ValidatorKeys};
pub use testkit::{ExternalMessage, ProbeError, Service, TestKit, TestKitApi, TestKitBuilder};
pub use types::{Height, Round, RoundRangeIter, ValidatorId};
