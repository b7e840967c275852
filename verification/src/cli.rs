//! What the command line asks for.

use vstd::prelude::*;

verus! {

/// The command line.
#[derive(Debug)]
pub struct Cli {
    pub command: Commands,
    /// Path to the Orchfile.
    pub orchfile: Option<String>,
    /// Overlay files, in order.
    pub overlay: Vec<String>,
    /// Runtime: bare, containerd, apple.
    pub runtime: Option<String>,
    /// Platform: systemd, launchd, orchdi.
    pub platform: Option<String>,
    /// State directory.
    pub state_dir: Option<String>,
    /// Project root directory.
    pub project_dir: Option<String>,
    /// Data directory for service storage.
    pub data_dir: Option<String>,
    /// The `orch` program.
    pub orch_bin: Option<String>,
    /// Namespace for isolation.
    pub namespace: Option<String>,
    /// Use user scope.
    pub user: bool,
    /// Use system scope.
    pub system: bool,
    /// Arguments handed on to `orch parse`, each `key=value`.
    pub args: Vec<String>,
    /// Verbose output.
    pub verbose: bool,
    /// Suppress output that is not an error.
    pub quiet: bool,
}

/// The subcommands.
#[derive(Debug)]
pub enum Commands {
    /// Bring the grove up: sow, plant and tend in one step.
    Grow { services: Vec<String>, no_start: bool },
    /// Report the grove: each tree's state.
    Survey { json: bool },
    /// Tear the grove down: stop and remove its beds.
    Fell { keep_data: bool },
    /// Tail a tree's logs.
    Logs { service: String, follow: bool, lines: u32 },
    /// Row: pair each service with its commands.
    Sow {  },
    /// Row: render each service's native files.
    Plant {  },
    /// Row: write, install and start.
    Tend { no_start: bool },
    /// Supervise a single service from a spec file.
    Supervise { spec: String },
    /// Run one container over containerd's API.
    ContainerdRun { spec: String },
}

} // verus!
