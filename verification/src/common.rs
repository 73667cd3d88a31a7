//! Value types shared by the board, the players and the game.

use vstd::prelude::*;

verus! {

/// The mark of one of the two players.
#[derive(Debug, PartialEq, Eq, Copy, Clone, Hash, Structural)]
pub enum Marker {
    X,
    O,
}

impl Marker {
    /// The other player's mark.
    pub open spec fn other(marker: Marker) -> Marker {
        match marker {
            Marker::X => Marker::O,
            Marker::O => Marker::X,
        }
    }

    /// The state of a cell that holds this mark.
    pub open spec fn state(self) -> CellState {
        match self {
            Marker::X => CellState::X,
            Marker::O => CellState::O,
        }
    }

    /// The other player's mark.
    pub fn opposite(marker: Marker) -> (r: Marker)
        ensures
            r == Marker::other(marker),
    {
        match marker {
            Marker::X => Marker::O,
            Marker::O => Marker::X,
        }
    }
}

/// What a cell of the board holds.
#[derive(Debug, PartialEq, Eq, Copy, Clone, Structural)]
pub enum CellState {
    X,
    O,
    Empty,
}

/// The structural class of a cell, fixed by its position.
#[derive(Debug, Copy, Clone, PartialEq, Eq, PartialOrd, Ord, Hash, Structural)]
pub enum CellType {
    Corner,
    Edge,
    Center,
}

/// The class of the cell at `(row, column)`: the four corners, the four
/// edges, and everything else counted as the center.
pub open spec fn cell_type_at(row: int, column: int) -> CellType {
    if (row == 0 || row == 2) && (column == 0 || column == 2) {
        CellType::Corner
    } else if (row == 0 && column == 1) || (row == 1 && column == 2) || (row == 2 && column == 1)
        || (row == 1 && column == 0) {
        CellType::Edge
    } else {
        CellType::Center
    }
}

/// Whether `(row, column)` lies on the 3x3 grid.
pub open spec fn in_bounds(row: int, column: int) -> bool {
    0 <= row < 3 && 0 <= column < 3
}

/// A cell position, with the flat index and the structural class that follow
/// from it.
#[derive(Debug, Copy, Clone, PartialEq, Eq, PartialOrd, Ord, Hash, Structural)]
pub struct CellCoord {
    pub row: usize,
    pub column: usize,
    /// `row * 3 + column`: the key of the cell in row-major arrays.
    pub index: usize,
    /// The structural class of `(row, column)`.
    pub cell_type: CellType,
}

impl View for CellCoord {
    type V = (int, int);

    open spec fn view(&self) -> (int, int) {
        (self.row as int, self.column as int)
    }
}

impl CellCoord {
    /// The derived fields agree with the position.
    pub open spec fn wf(&self) -> bool {
        &&& self.index == self.row * 3 + self.column
        &&& self.cell_type == cell_type_at(self.row as int, self.column as int)
    }

    /// The coordinate that `new` builds for a position.
    pub open spec fn at(row: int, column: int) -> CellCoord {
        CellCoord {
            row: row as usize,
            column: column as usize,
            index: (row * 3 + column) as usize,
            cell_type: cell_type_at(row, column),
        }
    }

    /// The coordinate of `(row, column)`. Positions off the grid are
    /// accepted; it is for the board to judge them.
    pub fn new(row: usize, column: usize) -> (c: CellCoord)
        requires
            row * 3 + column <= usize::MAX,
        ensures
            c == CellCoord::at(row as int, column as int),
            c.wf(),
            c.row == row,
            c.column == column,
    {
        let cell_type = match (row, column) {
            (0, 0) | (0, 2) | (2, 2) | (2, 0) => CellType::Corner,
            (0, 1) | (1, 2) | (2, 1) | (1, 0) => CellType::Edge,
            _ => CellType::Center,
        };

        CellCoord { row, column, index: row * 3 + column, cell_type }
    }

    /// The structural class of the cell.
    pub fn get_cell_type(&self) -> (t: CellType)
        ensures
            t == self.cell_type,
    {
        self.cell_type
    }
}

/// The verdict on a requested move.
#[derive(Debug, PartialEq, Eq, Copy, Clone, Structural)]
pub enum Move {
    Valid,
    AlreadyUsed,
    OutOfBounds,
}

} // verus!
