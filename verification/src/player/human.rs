//! The player whose moves are typed in.

use vstd::prelude::*;
use crate::board::Board;
use crate::common::{CellCoord, CellState, Marker, Move};
use crate::grid::{cell, validate, Grid};

verus! {

/// The human player: a name and a marker. The moves are typed in.
#[derive(Debug)]
pub struct Human<'a> {
    pub name: &'a str,
    pub marker: Marker,
}

/// The verdict on a move to `(row, column)`: out of bounds off the grid,
/// already used on a marked cell, valid on an empty one.
pub open spec fn verdict_at(g: Grid, row: int, column: int) -> Move {
    if column <= 2 && row <= 2 {
        if cell(g, row, column) == CellState::Empty {
            Move::Valid
        } else {
            Move::AlreadyUsed
        }
    } else {
        Move::OutOfBounds
    }
}

impl<'a> Human<'a> {
    /// A human under the name who places the marker.
    pub fn new(name: &'a str, marker: Marker) -> (player: Human<'a>)
        ensures
            player.name == name,
            player.marker == marker,
    {
        Human { name, marker }
    }

    /// The marker the human places.
    pub fn get_marker(&self) -> (marker: Marker)
        ensures
            marker == self.marker,
    {
        self.marker
    }

    /// The name the human goes by.
    pub fn get_name(&self) -> (name: &'a str)
        ensures
            name == self.name,
    {
        self.name
    }

    /// Judges the row and the column that the player typed: the coordinate
    /// where the move is valid on the board, else the verdict that tells the
    /// player why to try again.
    pub fn get_valid_move(&self, board: &Board, row: usize, column: usize) -> (answer: Result<
        CellCoord,
        Move,
    >)
        ensures
            verdict_at(board@, row as int, column as int) == Move::Valid ==> answer == Ok::<
                CellCoord,
                Move,
            >(CellCoord::at(row as int, column as int)),
            verdict_at(board@, row as int, column as int) != Move::Valid ==> answer == Err::<
                CellCoord,
                Move,
            >(verdict_at(board@, row as int, column as int)),
            answer matches Ok(c) ==> c.wf() && validate(board@, c) == Move::Valid,
    {
        if row > 2 || column > 2 {
            return Err(Move::OutOfBounds);
        }
        let player_move = CellCoord::new(row, column);
        match board.validate_move(player_move) {
            Move::Valid => Ok(player_move),
            Move::AlreadyUsed => Err(Move::AlreadyUsed),
            Move::OutOfBounds => Err(Move::OutOfBounds),
        }
    }
}

} // verus!
