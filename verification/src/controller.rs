//! The controller: the listing and install procedures over one tracker.

use vstd::prelude::*;
use crate::error::ErrorKind;
use crate::io::Input;
use crate::manager::spec_kind_name;
use crate::names::{clone_names, diff_names, join_lines, join_names, missing_names};
use crate::pkg::{InstallOutcome, InstallStep, Pkg};

verus! {

/// The procedural action the caller selected.
#[derive(Debug, Clone, Copy, PartialEq, Eq, Structural)]
pub enum Procedure {
    List,
    Install,
}

/// Drives the listing and install procedures over the tracker.
pub struct Controller {
    pub pkg: Pkg,
}

impl Controller {
    /// Wraps an initialized tracker.
    pub fn new(pkg: Pkg) -> (ctrl: Controller)
        ensures
            ctrl.pkg == pkg,
    {
        Controller { pkg }
    }

    /// The read-only listing: the installed packages without the names of
    /// the exclusion input, in snapshot order, joined by newlines. Fails
    /// when the tracker holds no snapshot; it never refreshes one.
    pub fn dump(&self, input: &Option<Input>) -> (r: Result<String, ErrorKind>)
        ensures
            match self.pkg.installed {
                Some(w) => r matches Ok(s) && s@ == join_names(
                    match input {
                        Some(inp) => diff_names(w.deep_view(), inp.list.deep_view()),
                        None => w.deep_view(),
                    },
                ),
                None => r matches Err(e) && e matches ErrorKind::PackagesNotFound(m) && m@
                    == spec_kind_name(self.pkg.manager.kind),
            },
    {
        match &self.pkg.installed {
            Some(installed) => {
                let filtered = match input {
                    Some(inp) => missing_names(installed, &inp.list),
                    None => clone_names(installed),
                };
                Ok(join_lines(&filtered))
            },
            None => Err(
                ErrorKind::PackagesNotFound(self.pkg.manager.get_kind_lowercase().to_owned()),
            ),
        }
    }

    /// Runs the install procedure for a desired input list: computes the
    /// missing set and decides whether the adapter must be invoked.
    pub fn install(&mut self, input: &Input) -> (step: InstallStep)
        ensures
            final(self).pkg.manager == old(self).pkg.manager,
            final(self).pkg.installed == old(self).pkg.installed,
            final(self).pkg.missing matches Some(m) && m.deep_view() == old(
                self,
            ).pkg.spec_missing(input.list.deep_view()),
            old(self).pkg.spec_missing(input.list.deep_view()).len() == 0 ==> step
                == InstallStep::Done(InstallOutcome::NoOpNothingMissing),
            old(self).pkg.spec_missing(input.list.deep_view()).len() > 0 ==> (step matches
                InstallStep::Invoke(m) && m.deep_view() == old(self).pkg.spec_missing(
                input.list.deep_view(),
            )),
    {
        self.pkg.install_missing(clone_names(&input.list))
    }
}

} // verus!
