//! Options that all commands share.

use vstd::prelude::*;

verus! {

/// Whether files go to the user's directories or to those of the system.
#[derive(Clone, Copy, Debug, PartialEq, Eq, Structural)]
pub enum InstallMode {
    User,
    System,
}

/// Options that all commands share.
#[derive(Clone, Debug)]
pub struct CliContext {
    pub install_mode: InstallMode,
    /// Root of the system directories.
    pub prefix: Option<String>,
    /// Machine-readable output.
    pub json: bool,
    /// Say what would be done, and do nothing.
    pub dry_run: bool,
    pub verbose: bool,
    pub quiet: bool,
    pub no_color: bool,
}

} // verus!
