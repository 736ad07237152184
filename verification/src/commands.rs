//! The command surface: which subcommand an invocation selects, and
//! the global verbosity flag.  The shell around the library parses
//! the command line into these plain values.

use vstd::prelude::*;

use crate::clean::CleanArgs;
use crate::colorx::ColorXArgs;

verus! {

/// The subcommands of the tool.
#[derive(Debug)]
pub enum Commands {
    /// Clean files in the well-known directories.
    Clean(CleanArgs),
    /// Move config files into markdown files to be backed up.
    BackupConfigs,
    /// Create a pull-request preview for the Bitwarden repositories.
    BitwardenPr,
    /// Convert a color between hex and RGB notation.
    ColorX(ColorXArgs),
}

/// One parsed invocation of the tool.
#[derive(Debug)]
pub struct Cli {
    /// When set, failure output includes the technical details
    /// beside the user-facing message.
    pub verbose: bool,
    pub command: Commands,
}

} // verus!
