//! The command line, as parsed values.

use vstd::prelude::*;

verus! {

/// What the command line asks for.
#[derive(Debug)]
pub struct Args {
    /// Path of the configuration file.
    pub config: Option<String>,
    /// Path of a file to log to, instead of standard error.
    pub log_path: Option<String>,
    /// How many times `-v` was given.
    pub verbose: u8,
    pub command: Option<Command>,
}

/// A subcommand; without one the bridge runs.
#[derive(Debug, PartialEq, Eq, Structural)]
pub enum Command {
    /// Fetch channels and users from every platform and save them.
    Fetch,
}

} // verus!
