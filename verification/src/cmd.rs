//! The package-manager adapter interface.
//!
//! The adapter performs external work (querying and installing packages);
//! the core only consumes its results. Implementations that actually run a
//! package manager live with the caller; the core's own `PacmanCmd` carries
//! the command data and the pure post-install filtering.

use vstd::prelude::*;
use crate::error::ErrorKind;

verus! {

/// Options applied to a package list after an install attempt.
pub struct FilterOptions {
    /// Mark the installed packages as explicitly installed.
    pub mark_explicit: Option<bool>,
}

/// The calls the core requires from a package-manager adapter.
pub trait PackageManagerCmds {
    /// Queries the names of the installed packages; yields nothing when no
    /// package data could be read.
    fn list_installed(&self) -> Result<Option<Vec<String>>, ErrorKind>;

    /// Installs the given packages.
    fn install(&self, package_list: Vec<String>) -> Result<(), ErrorKind>;

    /// Applies post-install filters to the given packages.
    fn post_install_filters(
        &self,
        package_list: Vec<String>,
        options: FilterOptions,
    ) -> Result<Vec<String>, ErrorKind>;
}

/// Pacman for Arch Linux.
#[derive(Debug, Clone, Copy)]
pub struct PacmanCmd {
    /// Program name of the package manager
    pub program: &'static str,
}

impl PacmanCmd {
    /// The pacman command set.
    pub fn new() -> (cmd: PacmanCmd)
        ensures
            cmd.program@ == "pacman"@,
    {
        PacmanCmd { program: "pacman" }
    }

    /// Pacman rewrites nothing after an install: the list passes through
    /// unchanged, whatever options are given.
    pub fn post_install_filters(
        &self,
        package_list: Vec<String>,
        _options: FilterOptions,
    ) -> (r: Result<Vec<String>, ErrorKind>)
        ensures
            r == Result::<Vec<String>, ErrorKind>::Ok(package_list),
    {
        Ok(package_list)
    }
}

} // verus!
