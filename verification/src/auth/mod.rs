//! Multi-signature broadcast authentication: node identities are Ed25519 keys,
//! nodes sign a common auth message, and the coordinator collects signatures
//! until an m-of-n threshold is met.
pub mod crypto;
pub mod messages;
pub mod aggregator;
pub mod config;
pub mod replay;
pub mod node;
pub mod coordinator;
pub mod rng;
