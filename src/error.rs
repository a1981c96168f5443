use vstd::prelude::*;

verus! {

/// The ways in which building an identifier can fail.
#[derive(Debug, Clone, Copy, PartialEq, Eq, Structural)]
pub enum Error {
    /// The text lacks a `-` delimiter that the identifier needs.
    InvalidIdent,
    /// The version field is not valid semantic-version syntax.
    InvalidVersion,
}

/// A `Result` whose error is [`Error`].
pub type Result<T> = core::result::Result<T, Error>;

} // verus!
