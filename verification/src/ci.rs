//! The bot's side of the build system.

use crate::errors::VolfResult;
use vstd::prelude::*;

verus! {

/// What the bot asks of a build system. Both calls go out over the network:
/// they are made after the queue has been let go of, never while it is held.
pub trait Buildable {
    /// Starts the build called `build`, after a pull request was promoted.
    /// The build runs on its own: its result comes in later.
    fn trigger(&self, build: &str) -> VolfResult<()>;

    /// Aborts the build called `build`, if that is still possible.
    fn abort(&self, build: &str) -> VolfResult<()>;
}

} // verus!
