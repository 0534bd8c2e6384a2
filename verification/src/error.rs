//! Failures that are nobody's input error.

use vstd::prelude::*;

verus! {

/// What went wrong inside the store.
#[derive(Clone, Copy, Debug, PartialEq, Eq, Structural)]
pub enum Fault {
    /// A table has handed out its last row id.
    IdsExhausted,
    /// A freshly drawn token is already some user's token.
    TokenCollision,
    /// A page number below 1 gives no valid offset.
    BadPage,
}

/// An error that the caller cannot mend: it is reported as an internal
/// error and the operation leaves no trace.
#[derive(Clone, Copy, Debug, PartialEq, Eq, Structural)]
pub enum WTError {
    InternalError(Fault),
}

impl WTError {
    /// The HTTP status that stands for this error.
    pub fn status_code(&self) -> (code: u16)
        ensures
            code == 500,
    {
        500
    }
}

} // verus!
