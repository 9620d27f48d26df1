//! Reconciliation of a declared package list against the state of a package
//! manager: name sets, configuration, diffs and the ordered plan of commands.

pub mod config;
pub mod diff;
pub mod error;
pub mod global_config;
pub mod names;
pub mod package_synchronizer;
pub mod sync_run;
pub mod text;

use vstd::prelude::*;

verus! {

/// What a function of the library returns where it can fail.
pub type AResult<T> = Result<T, error::SyncError>;

/// A command: the program's name, then its arguments. The empty vector stands
/// for "nothing to do".
pub type CommandVector = Vec<String>;

} // verus!
