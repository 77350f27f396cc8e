//! Coordinator-side logic: the environment variables handed to nodes, the
//! registry of peers and their shards, and the coordinator's part of the
//! signature-collection protocol.
pub mod env;
pub mod peer_registry;
pub mod auth;
pub mod consensus;
