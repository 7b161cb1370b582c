//! Failures that the logic of the drill can name.

use vstd::prelude::*;

verus! {

/// Why an operation of the drill was refused.
#[derive(Clone, Copy, Debug, PartialEq, Eq, Structural)]
pub enum TrainingError {
    /// The secret to memorize has no characters.
    EmptySecret,
    /// More characters were to be hidden than the secret has.
    InvalidLevel,
    /// The difficulty lies above the secret's length.
    InvalidState,
}

} // verus!
