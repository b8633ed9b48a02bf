//! Desired-state reconciliation for package lists.
//!
//! The crate keeps a canonical, sorted view of package-name lists, computes
//! which desired packages are missing from an installed snapshot, and
//! classifies the outcome of an install attempt from the observed state.

pub mod cmd;
pub mod controller;
pub mod error;
pub mod io;
pub mod logger;
pub mod manager;
pub mod names;
pub mod order;
pub mod pkg;
