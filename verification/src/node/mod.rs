//! Node-side logic: locating the training repository and its entry point,
//! describing the local GPUs, the training subprocess's rules, and the
//! decisions a node takes while it talks with the coordinator.
pub mod script_discovery;
pub mod gpu;
pub mod training;
pub mod session;
