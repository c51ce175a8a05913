//! Verified core of a decentralized-database node: the mutation log with its
//! rollup and garbage-collection records, the rollup batcher, the registry of
//! contract event listeners, and the block synchronisation engine.

pub mod clock;
pub mod doc_store;
pub mod encoding;
pub mod error;
pub mod indexer_impl;
pub mod mutation_store;
pub mod mutation_verifier;
pub mod records;
pub mod registry;
pub mod rollup_executor;
