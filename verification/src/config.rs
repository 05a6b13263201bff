//! Configuration consumed by the core.
//!
//! The values are loaded by the layer around the crate; the core only sees
//! the two plain numbers.  `required_columns` must be positive; a zero value
//! is rejected before it reaches the core.

use vstd::prelude::*;

verus! {

/// Settings the navigation core works with.
#[derive(Debug, Clone, Copy, PartialEq, Eq, Structural)]
pub struct Config {
    /// The number of columns that are required to be visible.
    pub required_columns: usize,
    /// Rows of context kept visible above and below the selection.
    pub column_margin: usize,
}

/// A rejected configuration value.
#[derive(Debug, Clone, Copy, PartialEq, Eq, Structural)]
pub enum Error {
    InvalidRequiredColumns,
}

impl Config {
    /// A configuration is well formed when at least one column is required.
    pub open spec fn wf(self) -> bool {
        self.required_columns >= 1
    }

    /// Builds a configuration from optionally supplied values, falling back
    /// to the defaults.  A zero `required_columns` is rejected.
    pub fn from_values(required_columns: Option<usize>, column_margin: Option<usize>) -> (r: Result<
        Config,
        Error,
    >)
        ensures
            match r {
                Ok(c) => {
                    &&& required_columns != Some(0usize)
                    &&& c.required_columns == match required_columns {
                        Some(v) => v,
                        None => 3usize,
                    }
                    &&& c.column_margin == match column_margin {
                        Some(v) => v,
                        None => 0usize,
                    }
                    &&& c.wf()
                },
                Err(e) => required_columns == Some(0usize) && e == Error::InvalidRequiredColumns,
            },
    {
        let mut config = Config::default();
        match required_columns {
            Some(0) => {
                return Err(Error::InvalidRequiredColumns);
            },
            Some(v) => {
                config.required_columns = v;
            },
            None => {},
        }
        if let Some(v) = column_margin {
            config.column_margin = v;
        }
        Ok(config)
    }
}

impl Default for Config {
    /// Three visible columns and no scroll margin.
    fn default() -> (r: Config)
        ensures
            r.required_columns == 3,
            r.column_margin == 0,
            r.wf(),
    {
        Config { required_columns: 3, column_margin: 0 }
    }
}

} // verus!
