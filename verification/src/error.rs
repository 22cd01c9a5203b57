//! The ways in which input to the engine can be refused.

use vstd::prelude::*;

verus! {

/// Why a layout string, a square name or a board index was refused.
#[derive(Copy, Clone, Debug, PartialEq, Eq, Structural)]
pub enum ChessError {
    /// A layout string that does not hold exactly 100 characters.
    InvalidLayout,
    /// A layout character outside the square alphabet.
    InvalidCharacter,
    /// A square name outside a1..h8, or a board index that is not one of the
    /// 64 playable ones.
    InvalidSquare,
}

} // verus!
