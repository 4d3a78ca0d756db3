//! What can go wrong when a note is looked up.

use vstd::prelude::*;

verus! {

#[derive(Clone, Copy, Debug, PartialEq, Eq, Structural)]
pub enum Error {
    /// The identifier has the wrong number of characters: it holds
    /// between 1 and 128.
    InvalidLength,
    /// The identifier has a character other than `a-z`, `A-Z`, `0-9`, `_`
    /// and `-`.
    InvalidCharacter,
    /// The book holds no note with the identifier.
    NotFound,
}

} // verus!
