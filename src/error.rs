use vstd::prelude::*;

verus! {

/// Errors that the game's operations surface to their callers.
#[derive(Clone, Copy, Debug, PartialEq, Eq, Structural)]
pub enum GameError {
    /// A referenced record could not be reached (possibly only for now).
    NotFound,
    /// The input was rejected, for instance an empty player list.
    InvalidInput,
    /// A record was retrieved but could not be decoded.
    DecodeError,
    /// A resource computation left the 32-bit signed range.
    ArithmeticError,
}

} // verus!
