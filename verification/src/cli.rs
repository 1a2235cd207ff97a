//! The command surface: plain data shapes for a parsed command line. The
//! process entry point parses text into these shapes and renders the
//! handler's result; the shapes themselves carry no behavior.

use vstd::prelude::*;

verus! {

/// A parsed creation command.
pub enum AddCommands {
    Task { project: String, task: String },
    Project { project: String },
    Point { point: String },
    Thought { thought: String },
}

/// A parsed top-level command.
pub enum Commands {
    Add { subcmd: AddCommands },
    Update {},
}

/// A parsed command line.
pub struct Cli {
    pub command: Commands,
}

} // verus!
