//! A fan-out indexing engine: one upstream stream of chain events drives many
//! independently-positioned consumers ("managed indexes"), each resuming from
//! a persisted cursor, with rollbacks applied and failures isolated per
//! consumer.
//!
//! - [`point`]: chain positions, block hashes and block metadata.
//! - [`store`]: cursor persistence, pluggable behind one contract.
//! - [`tx`]: the shape of a transaction as consumers see it.
//! - [`index`]: the capability contract every consumer implements.
//! - [`indexer`]: the multiplexing core and its dispatch rules.
//! - [`laws`]: what holds of whole runs of blocks and rollbacks.
//! - [`plutus`]: a model of plutus data and its trusted decoding.
//! - [`sundaev3`]: the pool datum and its verified parser.
//! - [`consumers`]: example consumers over the models above.
//! - [`hexstr`]: hex-encoded block hashes.
//! - [`process`]: the supervisor's bookkeeping for long-running services.

pub mod point;
pub mod store;
pub mod tx;
pub mod index;
pub mod indexer;
pub mod laws;
pub mod plutus;
pub mod sundaev3;
pub mod consumers;
pub mod hexstr;
pub mod process;
