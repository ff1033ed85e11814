//! Squares of the 9x9 board.

use vstd::prelude::*;

verus! {

/// True when (`r`, `c`) names a square of the 9x9 board.
pub open spec fn on_board(r: int, c: int) -> bool {
    0 <= r < 9 && 0 <= c < 9
}

/// A square, by rank (`row`) and file (`column`), each counted from 0.
#[derive(Clone, Copy, Debug, PartialEq, Eq, Structural)]
pub struct Position {
    pub row: i32,
    pub column: i32,
}

impl Position {
    /// True when the position lies on the board.
    pub open spec fn valid(self) -> bool {
        on_board(self.row as int, self.column as int)
    }

    /// The square that `Position::new(row, column)` names: the input itself
    /// where it lies on the board, the corner (0, 0) otherwise.
    pub open spec fn clamped(row: int, column: int) -> (int, int) {
        if on_board(row, column) {
            (row, column)
        } else {
            (0, 0)
        }
    }

    /// Makes a position; input off the board gives the corner (0, 0).
    pub fn new(row: i32, column: i32) -> (p: Position)
        ensures
            (p.row as int, p.column as int) == Position::clamped(row as int, column as int),
            p.valid(),
    {
        if row < 0 || row >= 9 || column < 0 || column >= 9 {
            Position { row: 0, column: 0 }
        } else {
            Position { row, column }
        }
    }

    /// Returns whether the position lies on the board.
    pub fn is_valid(&self) -> (r: bool)
        ensures
            r == self.valid(),
    {
        self.row >= 0 && self.row < 9 && self.column >= 0 && self.column < 9
    }

    /// Returns the rank.
    pub fn get_row(&self) -> (r: i32)
        ensures
            r == self.row,
    {
        self.row
    }

    /// Returns the file.
    pub fn get_column(&self) -> (r: i32)
        ensures
            r == self.column,
    {
        self.column
    }
}

} // verus!
