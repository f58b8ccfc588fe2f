//! Verified core of a Tendermint-style consensus node: vote thresholds,
//! validator sets, proposal assembly, the ABCI wire framing, mempool and
//! gossip bookkeeping.
#![allow(unused_imports)]

pub mod threshold;
pub mod abci_codec;
pub mod keys;
pub mod bytes_buf;
pub mod address;
pub mod validator_set;
pub mod round;
pub mod height;
pub mod encoding;
pub mod proposal;
pub mod host;
pub mod abci_app;
pub mod consensus_types;
pub mod proposer;
pub mod kv_mempool;
pub mod entry;
pub mod part_store;
pub mod peers;
pub mod block_sync;
pub mod gossip_mempool;
pub mod crdt;
pub mod channel;
pub mod discovery;
pub mod node;
pub mod driver_fixtures;
pub mod kv_host;
pub mod block_store;
