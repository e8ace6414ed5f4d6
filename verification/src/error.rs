//! Error taxonomy shared by the whole kernel.

use vstd::prelude::*;

verus! {

/// The kernel's error kinds: structural violations (`Topology`), malformed
/// geometric input (`Geometry`), text that could not be read (`Parse`),
/// I/O reported by a caller (`Io`), numeric-tolerance violations
/// (`Tolerance`), misuse of an operation (`InvalidOperation`), and a handle
/// that names no live entity (`NotFound`). Each carries a human-readable
/// description.
#[derive(Debug, Clone)]
pub enum CstError {
    Topology(String),
    Geometry(String),
    Parse(String),
    Io(String),
    Tolerance(String),
    InvalidOperation(String),
    NotFound(String),
}

impl CstError {
    /// The human-readable description carried by this error.
    pub fn message(&self) -> (r: String)
        ensures
            r@ == self.spec_message(),
    {
        match self {
            CstError::Topology(s) => s.clone(),
            CstError::Geometry(s) => s.clone(),
            CstError::Parse(s) => s.clone(),
            CstError::Io(s) => s.clone(),
            CstError::Tolerance(s) => s.clone(),
            CstError::InvalidOperation(s) => s.clone(),
            CstError::NotFound(s) => s.clone(),
        }
    }

    /// The description as a sequence of characters.
    pub open spec fn spec_message(&self) -> Seq<char> {
        match self {
            CstError::Topology(s) => s@,
            CstError::Geometry(s) => s@,
            CstError::Parse(s) => s@,
            CstError::Io(s) => s@,
            CstError::Tolerance(s) => s@,
            CstError::InvalidOperation(s) => s@,
            CstError::NotFound(s) => s@,
        }
    }
}

} // verus!
