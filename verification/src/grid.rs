//! The mathematical model of the board: the 3x3 grid of cell states, the eight
//! lines, and what a position offers each mark. Everything the engine caches
//! is defined here as a function of the grid alone.

use vstd::prelude::*;
use crate::board::{BoardState, SetType};
use crate::common::{in_bounds, CellCoord, CellState, CellType, Marker, Move};

verus! {

/// The occupancy of the board, row by row.
pub type Grid = Seq<Seq<CellState>>;

/// Three rows of three cells.
pub open spec fn grid_wf(g: Grid) -> bool {
    &&& g.len() == 3
    &&& g[0].len() == 3
    &&& g[1].len() == 3
    &&& g[2].len() == 3
}

/// The grid with every cell empty.
pub open spec fn empty_grid() -> Grid {
    Seq::new(3, |r: int| Seq::new(3, |c: int| CellState::Empty))
}

/// What the cell at `(row, column)` holds.
pub open spec fn cell(g: Grid, row: int, column: int) -> CellState {
    g[row][column]
}

/// What the cell at a coordinate holds.
pub open spec fn cell_at(g: Grid, c: CellCoord) -> CellState {
    cell(g, c.row as int, c.column as int)
}

/// The grid after `(row, column)` is set to `s`.
pub open spec fn put(g: Grid, row: int, column: int, s: CellState) -> Grid {
    g.update(row, g[row].update(column, s))
}

/// 1 for a true condition, 0 for a false one.
pub open spec fn ind(b: bool) -> int {
    if b {
        1
    } else {
        0
    }
}

/// 1 if the cell at `(row, column)` is marked, else 0.
pub open spec fn marked(g: Grid, row: int, column: int) -> int {
    ind(cell(g, row, column) != CellState::Empty)
}

/// The number of marked cells of the grid.
pub open spec fn marker_count(g: Grid) -> int {
    marked(g, 0, 0) + marked(g, 0, 1) + marked(g, 0, 2) + marked(g, 1, 0) + marked(g, 1, 1)
        + marked(g, 1, 2) + marked(g, 2, 0) + marked(g, 2, 1) + marked(g, 2, 2)
}

/// 1 if the cell at `(row, column)` is empty, else 0.
pub open spec fn open_cell(g: Grid, row: int, column: int) -> int {
    ind(cell(g, row, column) == CellState::Empty)
}

/// The number of empty corner cells.
pub open spec fn open_corners(g: Grid) -> int {
    open_cell(g, 0, 0) + open_cell(g, 0, 2) + open_cell(g, 2, 2) + open_cell(g, 2, 0)
}

/// The number of empty edge cells.
pub open spec fn open_edges(g: Grid) -> int {
    open_cell(g, 0, 1) + open_cell(g, 1, 2) + open_cell(g, 2, 1) + open_cell(g, 1, 0)
}

/// The number of empty cells of a structural class.
pub open spec fn open_cells(g: Grid, class: CellType) -> int {
    match class {
        CellType::Corner => open_corners(g),
        CellType::Edge => open_edges(g),
        CellType::Center => open_cell(g, 1, 1),
    }
}

/// A row or a column carries an index below 3; the diagonals carry none.
pub open spec fn line_valid(t: SetType) -> bool {
    match t {
        SetType::Row(i) => i < 3,
        SetType::Column(i) => i < 3,
        SetType::Diag1 => true,
        SetType::Diag2 => true,
    }
}

/// The `k`-th cell of a line, for `k` in 0, 1, 2: rows run left to right,
/// columns and both diagonals run top to bottom.
pub open spec fn line_coord(t: SetType, k: int) -> CellCoord {
    match t {
        SetType::Row(i) => CellCoord::at(i as int, k),
        SetType::Column(i) => CellCoord::at(k, i as int),
        SetType::Diag1 => CellCoord::at(k, k),
        SetType::Diag2 => CellCoord::at(k, 2 - k),
    }
}

/// The eight lines in the order in which the board is scanned: the rows, the
/// columns, the falling diagonal, the rising diagonal.
pub open spec fn line_at(n: int) -> SetType {
    if n < 3 {
        SetType::Row(n as usize)
    } else if n < 6 {
        SetType::Column((n - 3) as usize)
    } else if n == 6 {
        SetType::Diag1
    } else {
        SetType::Diag2
    }
}

/// Whether the position of `c` is that of one of the line's three cells.
pub open spec fn on_line(t: SetType, c: CellCoord) -> bool {
    line_coord(t, 0)@ == c@ || line_coord(t, 1)@ == c@ || line_coord(t, 2)@ == c@
}

/// A line as the scan reads it: the state and the coordinate of its three
/// cells.
pub open spec fn line_view(g: Grid, t: SetType) -> Seq<(CellState, CellCoord)> {
    Seq::new(3, |k: int| (cell_at(g, line_coord(t, k)), line_coord(t, k)))
}

/// How many of the three scanned cells hold `s`.
pub open spec fn count_in(set: Seq<(CellState, CellCoord)>, s: CellState) -> int {
    ind(set[0].0 == s) + ind(set[1].0 == s) + ind(set[2].0 == s)
}

/// The coordinate of the last of the three scanned cells that holds `s`
/// (the first cell's, if none does).
pub open spec fn last_in(set: Seq<(CellState, CellCoord)>, s: CellState) -> CellCoord {
    if set[2].0 == s {
        set[2].1
    } else if set[1].0 == s {
        set[1].1
    } else {
        set[0].1
    }
}

/// Two cells hold the mark and the third is empty.
pub open spec fn threat_in(set: Seq<(CellState, CellCoord)>, m: Marker) -> bool {
    count_in(set, m.state()) == 2 && count_in(set, CellState::Empty) == 1
}

/// One cell holds the mark and the other two are empty.
pub open spec fn candidate_in(set: Seq<(CellState, CellCoord)>, m: Marker) -> bool {
    count_in(set, m.state()) == 1 && count_in(set, CellState::Empty) == 2
}

/// All three cells of the line hold the mark.
pub open spec fn line_won(g: Grid, t: SetType, m: Marker) -> bool {
    count_in(line_view(g, t), m.state()) == 3
}

/// The line holds two cells of the mark and one empty cell.
pub open spec fn line_threat(g: Grid, t: SetType, m: Marker) -> bool {
    threat_in(line_view(g, t), m)
}

/// The line holds one cell of the mark and two empty cells.
pub open spec fn line_candidate(g: Grid, t: SetType, m: Marker) -> bool {
    candidate_in(line_view(g, t), m)
}

/// Some line is held entirely by the mark.
pub open spec fn has_won(g: Grid, m: Marker) -> bool {
    exists|t: SetType| line_valid(t) && #[trigger] line_won(g, t, m)
}

/// Some line through the cell is held entirely by the mark.
pub open spec fn wins_through(g: Grid, c: CellCoord, m: Marker) -> bool {
    exists|t: SetType| line_valid(t) && on_line(t, c) && #[trigger] line_won(g, t, m)
}

/// The state of play after `m` marked `last_move`: a win if a line through
/// that cell is complete, else a tie on a full board, else the game goes on.
pub open spec fn evaluate(g: Grid, last_move: CellCoord, m: Marker) -> BoardState {
    if wins_through(g, last_move, m) {
        BoardState::Win
    } else if marker_count(g) == 9 {
        BoardState::Tie
    } else {
        BoardState::Playing
    }
}

/// What the scan of one line adds to the winning moves of `m`: the empty
/// cell of a line that `m` threatens.
pub open spec fn winning_in(set: Seq<(CellState, CellCoord)>, m: Marker) -> Seq<CellCoord> {
    if threat_in(set, m) {
        seq![last_in(set, CellState::Empty)]
    } else {
        Seq::empty()
    }
}

/// What the scan of one line adds to the fork candidates of `m`: the marked
/// cell of a line that holds one `m` and two empty cells, with the line.
pub open spec fn candidate_entry(set: Seq<(CellState, CellCoord)>, t: SetType, m: Marker) -> Seq<
    (CellCoord, SetType),
> {
    if candidate_in(set, m) {
        seq![(last_in(set, m.state()), t)]
    } else {
        Seq::empty()
    }
}

/// The winning moves of `m` that the first `n` lines of the scan yield.
pub open spec fn winning_upto(g: Grid, m: Marker, n: nat) -> Seq<CellCoord>
    decreases n,
{
    if n == 0 {
        Seq::empty()
    } else {
        winning_upto(g, m, (n - 1) as nat) + winning_in(line_view(g, line_at(n - 1)), m)
    }
}

/// The winning moves of `m`, in scan order: for each line with two `m` and
/// one empty cell, that empty cell. A cell that completes two lines occurs
/// twice.
pub open spec fn winning_moves(g: Grid, m: Marker) -> Seq<CellCoord> {
    winning_upto(g, m, 8)
}

/// The fork candidates of `m` that the first `n` lines of the scan yield.
pub open spec fn candidates_upto(g: Grid, m: Marker, n: nat) -> Seq<(CellCoord, SetType)>
    decreases n,
{
    if n == 0 {
        Seq::empty()
    } else {
        candidates_upto(g, m, (n - 1) as nat) + candidate_entry(
            line_view(g, line_at(n - 1)),
            line_at(n - 1),
            m,
        )
    }
}

/// The fork candidates of `m`, in scan order: for each line with one `m` and
/// two empty cells, the marked cell and the line.
pub open spec fn fork_candidates(g: Grid, m: Marker) -> Seq<(CellCoord, SetType)> {
    candidates_upto(g, m, 8)
}

/// The one cell that two lines of different direction share; none for two
/// rows, two columns, or a line with itself.
pub open spec fn intersection(a: SetType, b: SetType) -> Option<CellCoord> {
    match (a, b) {
        (SetType::Row(r), SetType::Column(c)) => Some(CellCoord::at(r as int, c as int)),
        (SetType::Column(c), SetType::Row(r)) => Some(CellCoord::at(r as int, c as int)),
        (SetType::Row(r), SetType::Diag1) => Some(CellCoord::at(r as int, r as int)),
        (SetType::Diag1, SetType::Row(r)) => Some(CellCoord::at(r as int, r as int)),
        (SetType::Row(r), SetType::Diag2) => Some(CellCoord::at(r as int, 2 - r)),
        (SetType::Diag2, SetType::Row(r)) => Some(CellCoord::at(r as int, 2 - r)),
        (SetType::Column(c), SetType::Diag1) => Some(CellCoord::at(c as int, c as int)),
        (SetType::Diag1, SetType::Column(c)) => Some(CellCoord::at(c as int, c as int)),
        (SetType::Column(c), SetType::Diag2) => Some(CellCoord::at(2 - c, c as int)),
        (SetType::Diag2, SetType::Column(c)) => Some(CellCoord::at(2 - c, c as int)),
        (SetType::Diag1, SetType::Diag2) => Some(CellCoord::at(1, 1)),
        (SetType::Diag2, SetType::Diag1) => Some(CellCoord::at(1, 1)),
        _ => None,
    }
}

/// Whether `c` is met by intersecting the lines of two fork candidates that
/// were recorded for different marked cells.
pub open spec fn crossing(entries: Seq<(CellCoord, SetType)>, c: CellCoord) -> bool {
    exists|i: int, j: int|
        0 <= i < entries.len() && 0 <= j < entries.len() && entries[i].0 != entries[j].0
            && #[trigger] intersection(entries[i].1, entries[j].1) == Some(c)
}

/// An empty cell on the grid that completes a line for `m`: some line through
/// it holds two `m` and one empty cell.
pub open spec fn is_winning_cell(g: Grid, c: CellCoord, m: Marker) -> bool {
    &&& c.wf()
    &&& in_bounds(c.row as int, c.column as int)
    &&& cell_at(g, c) == CellState::Empty
    &&& exists|t: SetType| line_valid(t) && on_line(t, c) && #[trigger] line_threat(g, t, m)
}

/// An empty cell on the grid where `m` forks: two different lines through it
/// each hold one `m` and two empty cells.
#[verifier::opaque]
pub open spec fn is_fork_cell(g: Grid, c: CellCoord, m: Marker) -> bool {
    &&& c.wf()
    &&& in_bounds(c.row as int, c.column as int)
    &&& cell_at(g, c) == CellState::Empty
    &&& exists|t1: SetType, t2: SetType|
        t1 != t2 && line_valid(t1) && line_valid(t2) && on_line(t1, c) && on_line(t2, c)
            && #[trigger] line_candidate(g, t1, m) && #[trigger] line_candidate(g, t2, m)
}

/// An empty cell on the grid.
pub open spec fn is_open(g: Grid, c: CellCoord) -> bool {
    in_bounds(c.row as int, c.column as int) && cell_at(g, c) == CellState::Empty
}

/// The verdict on a move to `c`: out of bounds off the grid, already used on
/// a marked cell, valid on an empty one.
pub open spec fn validate(g: Grid, c: CellCoord) -> Move {
    if c.column <= 2 && c.row <= 2 {
        if cell_at(g, c) == CellState::Empty {
            Move::Valid
        } else {
            Move::AlreadyUsed
        }
    } else {
        Move::OutOfBounds
    }
}

/// A well-formed coordinate of an empty cell of the given structural class.
pub open spec fn is_open_of_class(g: Grid, c: CellCoord, class: CellType) -> bool {
    c.wf() && is_open(g, c) && c.cell_type == class
}

/// A pool of moves holds each empty cell of its structural class once, and
/// nothing else.
pub open spec fn pool_matches(pool: Seq<CellCoord>, g: Grid, class: CellType) -> bool {
    &&& pool.no_duplicates()
    &&& pool.len() == open_cells(g, class)
    &&& forall|i: int| 0 <= i < pool.len() ==> is_open_of_class(g, #[trigger] pool[i], class)
    &&& forall|c: CellCoord| #[trigger] is_open_of_class(g, c, class) ==> pool.contains(c)
}

} // verus!
