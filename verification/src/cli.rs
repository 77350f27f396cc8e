//! The command line of the `drift` program.
use vstd::prelude::*;

verus! {

/// The parsed command line.
#[derive(Debug, Clone)]
pub struct Cli {
    pub command: Commands,
}

/// The subcommands.
#[derive(Debug, Clone)]
pub enum Commands {
    /// Join the swarm and wait for a coordinator.
    Join { name: Option<String> },
    /// Coordinate a training run.
    Train {
        peers: Vec<String>,
        config: String,
        train_repo_url: Option<String>,
        model_artifact: Option<String>,
        dataset_urls: Vec<String>,
        resume: bool,
    },
    /// Show the node's status.
    Status,
}

} // verus!
