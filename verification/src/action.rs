//! What the player can ask for.

use vstd::prelude::*;

verus! {

/// A request of the player.
pub enum SudokuAction {
    /// Nothing to do.
    NoOp,
    /// Leave the game.
    Quit,
    /// Start over, from the puzzle in the named file or else from a blank grid.
    New(Option<String>),
    /// Go back one snapshot.
    Undo,
    /// Go forward one snapshot.
    Redo,
    /// Assign a value: column, row, value.
    AssignValue(u8, u8, u8),
    /// Clear a cell: column, row.
    UnassignValue(u8, u8),
    /// Cross a value out: column, row, value.
    CrossOutValue(u8, u8, u8),
    /// Fill in every forced value.
    AutoFill,
}

} // verus!
