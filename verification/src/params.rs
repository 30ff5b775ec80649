//! The command-line arguments.
use vstd::prelude::*;

verus! {

/// The command-line arguments of the program.
#[derive(Clone, Debug)]
pub struct Args {
    /// Say which windows have no icon.
    pub verbose: bool,
    /// Show the formatter variables of every client.
    pub debug: bool,
    /// Print the configuration that was read, then stop.
    pub dump: bool,
    /// The configuration file to read, if not the default one.
    pub config: Option<String>,
}

} // verus!
