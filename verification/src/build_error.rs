//! The error that the shader build reports.

use vstd::prelude::*;

verus! {

/// A shader build failure, carrying its diagnostic text.
#[derive(Debug, Clone)]
pub enum BuildError {
    /// A human-readable diagnostic.
    Message(String),
}

impl BuildError {
    /// The diagnostic text.
    pub open spec fn text(self) -> Seq<char> {
        match self {
            BuildError::Message(m) => m@,
        }
    }

    /// The diagnostic text, as the error displays.
    pub fn to_string(&self) -> (r: String)
        ensures
            r@ == self.text(),
    {
        match self {
            BuildError::Message(m) => m.clone(),
        }
    }
}

/// What a check that returns `Result<(), BuildError>` reported: `None` when it passed, else the
/// diagnostic text.
pub open spec fn outcome(r: Result<(), BuildError>) -> Option<Seq<char>> {
    match r {
        Ok(()) => None,
        Err(e) => Some(e.text()),
    }
}

} // verus!
