//! The two SQL backends differ, for the statements built here, only in how a
//! numbered bind parameter is written: `?1` for SQLite and `$1` for Postgres.

use vstd::prelude::*;

verus! {

/// A SQL backend, by its bind-parameter syntax.
#[derive(Debug, Clone, Copy, PartialEq, Eq, Structural)]
pub enum Dialect {
    /// Numbered parameters written `?1`, `?2`, ...
    Sqlite,
    /// Numbered parameters written `$1`, `$2`, ...
    Postgres,
}

/// The character that introduces a numbered parameter.
pub open spec fn marker(d: Dialect) -> char {
    match d {
        Dialect::Sqlite => '?',
        Dialect::Postgres => '$',
    }
}

impl Dialect {
    /// The parameter marker as text.
    pub fn marker_str(self) -> (s: &'static str)
        ensures
            s@ == seq![marker(self)],
    {
        match self {
            Dialect::Sqlite => {
                proof {
                    reveal_strlit("?");
                }
                "?"
            },
            Dialect::Postgres => {
                proof {
                    reveal_strlit("$");
                }
                "$"
            },
        }
    }
}

} // verus!
