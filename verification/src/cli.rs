//! Command-line arguments, as plain values.
//!
//! The argument parser itself, its help output and the existence checks on
//! the given paths belong to the layer around the crate; the core only sees
//! the values that survive them.

use crate::path::Path;
use vstd::prelude::*;

verus! {

/// The program's arguments.
pub struct Args {
    /// Location of the log file.
    pub log_file: Option<Path>,
    /// Whether logging is switched off.
    pub quite: bool,
    /// Location of the config file, when not the system default.
    pub config: Option<Path>,
    /// The directory the browser starts in.
    pub path: Option<Path>,
}

impl Args {
    pub fn new(
        log_file: Option<Path>,
        quite: bool,
        config: Option<Path>,
        path: Option<Path>,
    ) -> (r: Args)
        ensures
            r.log_file == log_file,
            r.quite == quite,
            r.config == config,
            r.path == path,
    {
        Args { log_file, quite, config, path }
    }
}

} // verus!
