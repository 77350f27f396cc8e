//! Verified core of the drift distributed-training system: node authentication
//! (signing, threshold aggregation, replay protection, sequence checking), the
//! coordinator's shard bookkeeping, and the small parsing and decision rules the
//! node and coordinator binaries rely on.
pub mod text;
pub mod platform;
pub mod auth;
pub mod proto;
pub mod coord;
pub mod node;
pub mod cli;
