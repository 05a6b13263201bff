//! Errors surfaced to the user.
//!
//! Input/output failures reach the core as plain text prepared by the layer
//! around the crate; command failures come from the core itself.

use crate::command::CommandError;
use vstd::prelude::*;

verus! {

/// A reportable failure, shown in the command palette's error banner.
#[derive(Debug)]
pub enum Error {
    /// An input/output failure, described for the user.
    Io(Vec<char>),
    /// A rejected palette command.
    Command(CommandError),
    /// A rejected configuration.
    Config(crate::config::Error),
}

} // verus!
