//! A cross-chain token-bridge relayer-indexer, verified.
//!
//! The pipeline observes `Deposit` events on a pair of chains, records
//! them durably, marks them final once buried under enough blocks, and
//! releases them on the opposite chain at most once. The durable store and
//! every decision of the three worker loops live here with contracts; the
//! process edge — subscriptions, RPC, the relational database — drives
//! them with plain values.

pub mod codec;
pub mod distribute;
pub mod ingest;
pub mod store;
pub mod sweep;
