//! The error taxonomy of the reconciliation core.

use vstd::prelude::*;

verus! {

/// A failure the core reports to its caller. Adapter-reported install
/// errors are not among these: they are absorbed and reclassified into an
/// install outcome; only errors that prevent observing the installed state
/// surface here.
#[derive(Debug)]
pub enum ErrorKind {
    /// No supported package manager was detected; carries the target name.
    UndetectedManager(String),
    /// The requested package manager is unsupported; carries the request and
    /// the name of the manager that was detected instead.
    UnsupportedManager(String, String),
    /// The package manager was interrupted; carries its message.
    InterruptedManager(String),
    /// The package manager failed; carries its message.
    FailedManager(String),
    /// The adapter produced no installed-package data for the named manager.
    PackagesNotFound(String),
}

} // verus!
