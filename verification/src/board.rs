//! The board state engine: the grid of cells, the tactical metadata that is
//! rebuilt from it after every placement, and the queries that players and
//! the game loop put to it.

use vstd::prelude::*;
use crate::common::{CellCoord, CellState, CellType, Marker, Move};
use crate::grid::{
    candidate_entry, candidates_upto, cell, cell_at, count_in, crossing, empty_grid, evaluate,
    fork_candidates, grid_wf, ind, intersection, is_fork_cell, is_open, is_open_of_class,
    is_winning_cell, line_at, line_coord, line_valid, line_view, line_won, marker_count, on_line,
    open_corners, open_edges, pool_matches, put, validate, winning_in, winning_moves, winning_upto,
    wins_through, Grid,
};
use crate::lemmas::{
    lemma_candidates_valid, lemma_fork_cell_open, lemma_forks, lemma_pool_after_put,
    lemma_winning_moves, without,
};
use crate::random::choose_move;

verus! {

/// The board: the grid of cells, the count of markers on it, and the
/// tactical metadata derived from the grid.
pub struct Board {
    cells: [[CellState; 3]; 3],
    marker_count: u8,
    metadata: BoardMetadata,
}

/// What the game has come to after a move.
#[derive(Debug, PartialEq, Eq, Copy, Clone, Structural)]
pub enum BoardState {
    Win,
    Tie,
    Playing,
}

/// The index of a row or of a column.
pub type SetIndex = usize;

/// One of the eight lines of three cells: a row or a column by its index, the
/// diagonal from the top left, or the diagonal from the top right.
#[derive(Debug, PartialEq, Eq, Copy, Clone, Structural)]
pub enum SetType {
    Row(SetIndex),
    Column(SetIndex),
    Diag1,
    Diag2,
}

/// The metadata derived from the grid: what each mark can win with, the
/// lines where each mark stands alone, and the corners and edges still free.
struct BoardMetadata {
    x_winning_moves: Vec<CellCoord>,
    o_winning_moves: Vec<CellCoord>,
    corner_moves: Vec<CellCoord>,
    edge_moves: Vec<CellCoord>,
    x_potential_forks: Vec<(CellCoord, SetType)>,
    o_potential_forks: Vec<(CellCoord, SetType)>,
}

/// The character that stands for a cell state on a display.
pub open spec fn symbol(s: CellState) -> char {
    match s {
        CellState::X => 'X',
        CellState::O => 'O',
        CellState::Empty => '_',
    }
}

impl View for Board {
    type V = Grid;

    /// The occupancy of the board, row by row.
    closed spec fn view(&self) -> Grid {
        Seq::new(3, |r: int| self.cells@[r]@)
    }
}

impl Board {
    /// The number of markers the board has counted.
    pub closed spec fn count(&self) -> int {
        self.marker_count as int
    }

    /// The winning moves the board holds for a mark.
    pub closed spec fn winning(&self, marker: Marker) -> Seq<CellCoord> {
        self.metadata.winning(marker)
    }

    /// The fork candidates the board holds for a mark.
    pub closed spec fn candidates(&self, marker: Marker) -> Seq<(CellCoord, SetType)> {
        self.metadata.candidates(marker)
    }

    /// The corners the board offers.
    pub closed spec fn corner_pool(&self) -> Seq<CellCoord> {
        self.metadata.corner_moves@
    }

    /// The edges the board offers.
    pub closed spec fn edge_pool(&self) -> Seq<CellCoord> {
        self.metadata.edge_moves@
    }

    /// Everything the board caches agrees with its grid.
    pub open spec fn wf(&self) -> bool {
        &&& grid_wf(self@)
        &&& self.count() == marker_count(self@)
        &&& self.winning(Marker::X) == winning_moves(self@, Marker::X)
        &&& self.winning(Marker::O) == winning_moves(self@, Marker::O)
        &&& self.candidates(Marker::X) == fork_candidates(self@, Marker::X)
        &&& self.candidates(Marker::O) == fork_candidates(self@, Marker::O)
        &&& pool_matches(self.corner_pool(), self@, CellType::Corner)
        &&& pool_matches(self.edge_pool(), self@, CellType::Edge)
    }

    /// The empty board.
    pub fn new() -> (board: Board)
        ensures
            board.wf(),
            board@ == empty_grid(),
    {
        // The outer index is the row, the inner index the column.
        let board = Board {
            cells: [[CellState::Empty; 3]; 3],
            marker_count: 0,
            metadata: BoardMetadata::new(),
        };
        proof {
            assert(board@ =~~= empty_grid());
            reveal_with_fuel(winning_upto, 9);
            reveal_with_fuel(candidates_upto, 9);
        }
        board
    }

    fn get_cell_char(&self, cell_state: &CellState) -> (ch: char)
        ensures
            ch == symbol(*cell_state),
    {
        match cell_state {
            CellState::X => 'X',
            CellState::O => 'O',
            CellState::Empty => '_',
        }
    }

    /// The symbol of the cell with the given flat index, for display.
    pub fn get_cellstate_char(&self, index: usize) -> (ch: char)
        requires
            index < 9,
        ensures
            ch == symbol(cell(self@, index as int / 3, index as int % 3)),
    {
        let row: usize = index / 3;
        let col: usize = index % 3;
        self.get_cell_char(&self.cells[row][col])
    }

    /// The verdict on a move to the cell; the board is left as it is.
    pub fn validate_move(&self, cell_coord: CellCoord) -> (verdict: Move)
        ensures
            verdict == validate(self@, cell_coord),
    {
        // We only check the upper bound, because column and row are usize,
        // which is always >= 0.
        if cell_coord.column <= 2 && cell_coord.row <= 2 {
            if let CellState::Empty = self.cells[cell_coord.row][cell_coord.column] {
                Move::Valid
            } else {
                Move::AlreadyUsed
            }
        } else {
            Move::OutOfBounds
        }
    }

    /// The `k`-th cell of a line.
    fn set_cell(set_type: SetType, k: usize) -> (coord: CellCoord)
        requires
            line_valid(set_type),
            k < 3,
        ensures
            coord == line_coord(set_type, k as int),
    {
        match set_type {
            SetType::Row(row_index) => CellCoord::new(row_index, k),
            SetType::Column(col_index) => CellCoord::new(k, col_index),
            SetType::Diag1 => CellCoord::new(k, k),
            SetType::Diag2 => CellCoord::new(k, 2 - k),
        }
    }

    /// The three cells of a line, each with what it holds.
    fn get_set(&self, set_type: SetType) -> (set: Vec<(CellState, CellCoord)>)
        requires
            line_valid(set_type),
        ensures
            set@ == line_view(self@, set_type),
    {
        let mut set: Vec<(CellState, CellCoord)> = Vec::new();
        let mut k: usize = 0;
        while k < 3
            invariant
                k <= 3,
                line_valid(set_type),
                set@.len() == k,
                forall|j: int| 0 <= j < k ==> set@[j] == line_view(self@, set_type)[j],
            decreases 3 - k,
        {
            let coord = Board::set_cell(set_type, k);
            set.push((self.cells[coord.row][coord.column], coord));
            k += 1;
        }
        set
    }

    /// Whether all three cells of a line hold the marker.
    fn holds_set(&self, set_type: SetType, marker: Marker) -> (all: bool)
        requires
            line_valid(set_type),
        ensures
            all == line_won(self@, set_type, marker),
    {
        let set = self.get_set(set_type);
        let mut all = true;
        let mut k: usize = 0;
        while k < 3
            invariant
                k <= 3,
                set@.len() == 3,
                all == (forall|j: int| 0 <= j < k ==> (#[trigger] set@[j]).0 == marker.state()),
            decreases 3 - k,
        {
            let cell_marker = set[k].0;
            let marked = match marker {
                Marker::X if cell_marker == CellState::X => true,
                Marker::O if cell_marker == CellState::O => true,
                _ => false,
            };
            all = all && marked;
            k += 1;
        }
        all
    }

    // check_board_state() takes the last move to better check the win condition.
    // Since we check for a win after every move, we only have to check
    // the row, column, and diagonals that pass through the most recently
    // marked cell.
    pub fn check_board_state(&self, last_move: CellCoord, marker: Marker) -> (state: BoardState)
        requires
            self.wf(),
            last_move.row < 3,
            last_move.column < 3,
        ensures
            state == evaluate(self@, last_move, marker),
            state is Win <==> wins_through(self@, last_move, marker),
            state is Tie <==> marker_count(self@) == 9 && !wins_through(self@, last_move, marker),
    {
        let winning_row = self.holds_set(SetType::Row(last_move.row), marker);
        if winning_row {
            return BoardState::Win;
        }
        let winning_column = self.holds_set(SetType::Column(last_move.column), marker);
        if winning_column {
            return BoardState::Win;
        }
        // Top left to bottom right diagonal.
        let winning_diag = last_move.row == last_move.column && self.holds_set(
            SetType::Diag1,
            marker,
        );
        if winning_diag {
            return BoardState::Win;
        }
        // Top right to bottom left diagonal.
        let winning_diag = last_move.row + last_move.column == 2 && self.holds_set(
            SetType::Diag2,
            marker,
        );
        if winning_diag {
            return BoardState::Win;
        }
        proof {
            assert forall|t: SetType|
                line_valid(t) && on_line(t, last_move) implies !#[trigger] line_won(
                self@,
                t,
                marker,
            ) by {}
        }

        // No winners this move. Let's check if it's a tie.
        if self.marker_count == 9 {
            return BoardState::Tie;
        }
        BoardState::Playing
    }

    /// The grid, the count and the pools are those of `before`.
    spec fn same_grid(&self, before: &Board) -> bool {
        &&& self@ == before@
        &&& self.marker_count == before.marker_count
        &&& self.metadata.same_pools(&before.metadata)
    }

    /// Marks the cell for the marker where the move is valid, and brings the
    /// count and the metadata up to date. An invalid move changes nothing.
    pub fn place_marker(&mut self, cell_coord: CellCoord, marker: Marker)
        requires
            old(self).wf(),
        ensures
            final(self).wf(),
            validate(old(self)@, cell_coord) == Move::Valid ==> final(self)@ == put(
                old(self)@,
                cell_coord.row as int,
                cell_coord.column as int,
                marker.state(),
            ),
            validate(old(self)@, cell_coord) != Move::Valid ==> *final(self) == *old(self),
    {
        // A cell that is off the grid or already marked is left as it is.
        if let Move::Valid = self.validate_move(cell_coord) {
            // The derived fields of a hand-built coordinate are not relied on.
            let last_move = CellCoord::new(cell_coord.row, cell_coord.column);
            let ghost before = self@;
            match marker {
                Marker::X => self.cells[last_move.row][last_move.column] = CellState::X,
                Marker::O => self.cells[last_move.row][last_move.column] = CellState::O,
            }
            proof {
                assert(self@ =~~= put(
                    before,
                    last_move.row as int,
                    last_move.column as int,
                    marker.state(),
                ));
                assert(put(self@, last_move.row as int, last_move.column as int, CellState::Empty)
                    =~~= before);
                lemma_count_after_put(before, last_move, marker.state());
            }
            self.marker_count += 1;
            self.update_board_metadata(last_move);
        }
    }

    fn update_board_metadata(&mut self, last_move: CellCoord)
        requires
            last_move.wf(),
            !is_open(old(self)@, last_move),
            last_move.row < 3,
            last_move.column < 3,
            grid_wf(old(self)@),
            pool_matches(
                old(self).corner_pool(),
                put(old(self)@, last_move.row as int, last_move.column as int, CellState::Empty),
                CellType::Corner,
            ),
            pool_matches(
                old(self).edge_pool(),
                put(old(self)@, last_move.row as int, last_move.column as int, CellState::Empty),
                CellType::Edge,
            ),
        ensures
            final(self)@ == old(self)@,
            final(self).count() == old(self).count(),
            final(self).winning(Marker::X) == winning_moves(final(self)@, Marker::X),
            final(self).winning(Marker::O) == winning_moves(final(self)@, Marker::O),
            final(self).candidates(Marker::X) == fork_candidates(final(self)@, Marker::X),
            final(self).candidates(Marker::O) == fork_candidates(final(self)@, Marker::O),
            pool_matches(final(self).corner_pool(), final(self)@, CellType::Corner),
            pool_matches(final(self).edge_pool(), final(self)@, CellType::Edge),
    {
        let ghost g = self@;
        let ghost before = put(g, last_move.row as int, last_move.column as int, CellState::Empty);
        proof {
            assert(put(before, last_move.row as int, last_move.column as int, cell_at(g, last_move))
                =~~= g);
            lemma_pool_after_put(
                self.corner_pool(),
                before,
                last_move,
                cell_at(g, last_move),
                CellType::Corner,
            );
            lemma_pool_after_put(
                self.edge_pool(),
                before,
                last_move,
                cell_at(g, last_move),
                CellType::Edge,
            );
        }
        match last_move.get_cell_type() {
            CellType::Corner => self.metadata.remove_corner_move(last_move),
            CellType::Edge => self.metadata.remove_edge_move(last_move),
            _ => (),
        }

        self.metadata.reset();

        let ghost corners = self.corner_pool();
        let ghost edges = self.edge_pool();
        let count = self.marker_count;

        let mut row_index: usize = 0;
        while row_index < 3
            invariant
                row_index <= 3,
                self@ == g,
                self.marker_count == count,
                self.corner_pool() == corners,
                self.edge_pool() == edges,
                self.winning(Marker::X) == winning_upto(g, Marker::X, row_index as nat),
                self.winning(Marker::O) == winning_upto(g, Marker::O, row_index as nat),
                self.candidates(Marker::X) == candidates_upto(g, Marker::X, row_index as nat),
                self.candidates(Marker::O) == candidates_upto(g, Marker::O, row_index as nat),
            decreases 3 - row_index,
        {
            let row = self.get_set(SetType::Row(row_index));
            self.scan_set(row, SetType::Row(row_index));
            row_index += 1;
        }

        let mut col_index: usize = 0;
        while col_index < 3
            invariant
                col_index <= 3,
                self@ == g,
                self.marker_count == count,
                self.corner_pool() == corners,
                self.edge_pool() == edges,
                self.winning(Marker::X) == winning_upto(g, Marker::X, (3 + col_index) as nat),
                self.winning(Marker::O) == winning_upto(g, Marker::O, (3 + col_index) as nat),
                self.candidates(Marker::X) == candidates_upto(g, Marker::X, (3 + col_index) as nat),
                self.candidates(Marker::O) == candidates_upto(g, Marker::O, (3 + col_index) as nat),
            decreases 3 - col_index,
        {
            let col = self.get_set(SetType::Column(col_index));
            self.scan_set(col, SetType::Column(col_index));
            col_index += 1;
        }

        let diag1 = self.get_set(SetType::Diag1);
        self.scan_set(diag1, SetType::Diag1);
        proof {
            assert(self.winning(Marker::X) == winning_upto(g, Marker::X, 7));
            assert(self.winning(Marker::O) == winning_upto(g, Marker::O, 7));
            assert(self.candidates(Marker::X) == candidates_upto(g, Marker::X, 7));
            assert(self.candidates(Marker::O) == candidates_upto(g, Marker::O, 7));
        }

        let diag2 = self.get_set(SetType::Diag2);
        self.scan_set(diag2, SetType::Diag2);
    }

    fn scan_set(&mut self, set: Vec<(CellState, CellCoord)>, set_type: SetType)
        requires
            set@.len() == 3,
        ensures
            final(self).same_grid(old(self)),
            final(self).winning(Marker::X) == old(self).winning(Marker::X) + winning_in(
                set@,
                Marker::X,
            ),
            final(self).winning(Marker::O) == old(self).winning(Marker::O) + winning_in(
                set@,
                Marker::O,
            ),
            final(self).candidates(Marker::X) == old(self).candidates(Marker::X) + candidate_entry(
                set@,
                set_type,
                Marker::X,
            ),
            final(self).candidates(Marker::O) == old(self).candidates(Marker::O) + candidate_entry(
                set@,
                set_type,
                Marker::O,
            ),
    {
        let mut x_count: u8 = 0;
        let mut x_coord: CellCoord = CellCoord::new(0, 0);
        let mut o_count: u8 = 0;
        let mut o_coord: CellCoord = CellCoord::new(0, 0);
        let mut empty: u8 = 0;
        let mut empty_coord: CellCoord = CellCoord::new(0, 0);

        let mut index: usize = 0;
        while index < set.len()
            invariant
                index <= 3,
                set@.len() == 3,
                x_count == seen(set@, CellState::X, index as int),
                o_count == seen(set@, CellState::O, index as int),
                empty == seen(set@, CellState::Empty, index as int),
                x_count > 0 ==> x_coord == last_seen(set@, CellState::X, index as int),
                o_count > 0 ==> o_coord == last_seen(set@, CellState::O, index as int),
                empty > 0 ==> empty_coord == last_seen(set@, CellState::Empty, index as int),
            decreases 3 - index,
        {
            let (cell, coord) = set[index];
            match cell {
                CellState::X => {
                    x_coord = coord;
                    x_count += 1;
                },
                CellState::O => {
                    o_coord = coord;
                    o_count += 1;
                },
                CellState::Empty => {
                    empty += 1;
                    empty_coord = coord;
                },
            }
            index += 1;
        }
        let ghost before = *self;

        match (x_count, o_count, empty) {
            (2, 0, 1) => {
                // winning move for X
                self.metadata.add_winning_coord(empty_coord, Marker::X);
            },
            (0, 2, 1) => {
                // winning move for O
                self.metadata.add_winning_coord(empty_coord, Marker::O);
            },
            (1, 0, 2) => {
                // This set is a fork potential for X.
                self.metadata.add_potential_fork(x_coord, set_type, Marker::X);
            },
            (0, 1, 2) => {
                // This set is a fork potential for O.
                self.metadata.add_potential_fork(o_coord, set_type, Marker::O);
            },
            _ => (),
        }
        proof {
            assert(self.winning(Marker::X) =~= before.winning(Marker::X) + winning_in(
                set@,
                Marker::X,
            ));
            assert(self.winning(Marker::O) =~= before.winning(Marker::O) + winning_in(
                set@,
                Marker::O,
            ));
            assert(self.candidates(Marker::X) =~= before.candidates(Marker::X) + candidate_entry(
                set@,
                set_type,
                Marker::X,
            ));
            assert(self.candidates(Marker::O) =~= before.candidates(Marker::O) + candidate_entry(
                set@,
                set_type,
                Marker::O,
            ));
        }
    }

    /// A move that wins at once for the marker, if there is one: the last
    /// that the scan of the lines found.
    pub fn get_winning_move(&self, marker: Marker) -> (coord: Option<CellCoord>)
        requires
            self.wf(),
        ensures
            winning_moves(self@, marker).len() == 0 ==> coord is None,
            winning_moves(self@, marker).len() > 0 ==> coord == Some(
                winning_moves(self@, marker).last(),
            ),
            coord matches Some(c) ==> is_winning_cell(self@, c, marker),
            coord is None <==> forall|c: CellCoord| !is_winning_cell(self@, c, marker),
    {
        let ghost moves = winning_moves(self@, marker);
        proof {
            if moves.len() > 0 {
                lemma_winning_moves(self@, marker, moves.last());
            } else {
                assert forall|c: CellCoord| !is_winning_cell(self@, c, marker) by {
                    lemma_winning_moves(self@, marker, c);
                }
            }
        }
        if let Some(mut vec) = self.metadata.get_winning_coords(marker) {
            vec.pop()
        } else {
            None
        }
    }

    /// Every winning move of the marker, in the order of the scan.
    pub fn get_winning_moves(&self, marker: Marker) -> (coords: Vec<CellCoord>)
        requires
            self.wf(),
        ensures
            coords@ == winning_moves(self@, marker),
            forall|c: CellCoord| coords@.contains(c) <==> is_winning_cell(self@, c, marker),
    {
        proof {
            assert forall|c: CellCoord|
                winning_moves(self@, marker).contains(c) <==> is_winning_cell(
                    self@,
                    c,
                    marker,
                ) by {
                lemma_winning_moves(self@, marker, c);
            }
        }
        match self.metadata.get_winning_coords(marker) {
            Some(coords) => coords,
            None => Vec::new(),
        }
    }

    /// The cells where the marker forks, each once, in no stated order.
    pub fn get_forking_move(&self, marker: Marker) -> (coords: Vec<CellCoord>)
        requires
            self.wf(),
        ensures
            coords@.no_duplicates(),
            forall|c: CellCoord| #[trigger] coords@.contains(c) <==> is_fork_cell(self@, c, marker),
            forall|i: int|
                0 <= i < coords@.len() ==> (#[trigger] coords@[i]).wf() && validate(
                    self@,
                    coords@[i],
                ) == Move::Valid,
    {
        proof {
            lemma_candidates_valid(self@, marker);
            assert forall|c: CellCoord|
                crossing(fork_candidates(self@, marker), c) <==> is_fork_cell(
                    self@,
                    c,
                    marker,
                ) by {
                lemma_forks(self@, marker, c);
            }
        }
        let coords = self.metadata.get_fork_coords(marker);
        proof {
            assert forall|i: int| 0 <= i < coords@.len() implies (#[trigger] coords@[i]).wf()
                && validate(self@, coords@[i]) == Move::Valid by {
                assert(coords@.contains(coords@[i]));
                lemma_fork_cell_open(self@, coords@[i], marker);
            }
        }
        coords
    }

    /// The lines that hold one cell of the marker and two empty cells, each
    /// with its marked cell, in the order of the scan.
    pub fn get_single_marker_sets(&self, marker: Marker) -> (sets: Vec<(CellCoord, SetType)>)
        requires
            self.wf(),
        ensures
            sets@ == fork_candidates(self@, marker),
    {
        self.metadata.get_potential_forks(marker)
    }

    /// An empty corner drawn at random, or nothing where no corner is empty.
    pub fn get_corner_move(&self) -> (coord: Option<CellCoord>)
        requires
            self.wf(),
        ensures
            coord is None <==> open_corners(self@) == 0,
            coord matches Some(c) ==> is_open_of_class(self@, c, CellType::Corner)
                && self.corner_pool().contains(c),
    {
        self.metadata.get_corner_coords()
    }

    /// The corners still on offer.
    pub fn get_corner_moves(&self) -> (moves: Vec<CellCoord>)
        ensures
            moves@ == self.corner_pool(),
    {
        self.metadata.corner_moves.clone()
    }

    /// The edges still on offer.
    pub fn get_edge_moves(&self) -> (moves: Vec<CellCoord>)
        ensures
            moves@ == self.edge_pool(),
    {
        self.metadata.edge_moves.clone()
    }

    /// An empty edge drawn at random, or nothing where no edge is empty.
    pub fn get_edge_move(&self) -> (coord: Option<CellCoord>)
        requires
            self.wf(),
        ensures
            coord is None <==> open_edges(self@) == 0,
            coord matches Some(c) ==> is_open_of_class(self@, c, CellType::Edge)
                && self.edge_pool().contains(c),
    {
        self.metadata.get_edge_coords()
    }
}

/// How many of the first `n` scanned cells hold `s`.
spec fn seen(set: Seq<(CellState, CellCoord)>, s: CellState, n: int) -> int {
    ind(n > 0 && set[0].0 == s) + ind(n > 1 && set[1].0 == s) + ind(n > 2 && set[2].0 == s)
}

/// The coordinate of the last of the first `n` scanned cells that holds `s`.
spec fn last_seen(set: Seq<(CellState, CellCoord)>, s: CellState, n: int) -> CellCoord {
    if n > 2 && set[2].0 == s {
        set[2].1
    } else if n > 1 && set[1].0 == s {
        set[1].1
    } else {
        set[0].1
    }
}

/// Marking an empty cell raises the number of marked cells by one.
proof fn lemma_count_after_put(g: Grid, c: CellCoord, s: CellState)
    requires
        grid_wf(g),
        is_open(g, c),
        s != CellState::Empty,
    ensures
        marker_count(put(g, c.row as int, c.column as int, s)) == marker_count(g) + 1,
        marker_count(g) <= 8,
        grid_wf(put(g, c.row as int, c.column as int, s)),
{
    let after = put(g, c.row as int, c.column as int, s);
    assert forall|r: int, k: int| 0 <= r < 3 && 0 <= k < 3 implies #[trigger] cell(after, r, k)
        == if r == c.row && k == c.column {
        s
    } else {
        cell(g, r, k)
    } by {}
}

impl BoardMetadata {
    /// The winning moves recorded for a mark.
    pub closed spec fn winning(&self, marker: Marker) -> Seq<CellCoord> {
        match marker {
            Marker::X => self.x_winning_moves@,
            Marker::O => self.o_winning_moves@,
        }
    }

    /// The fork candidates recorded for a mark.
    pub closed spec fn candidates(&self, marker: Marker) -> Seq<(CellCoord, SetType)> {
        match marker {
            Marker::X => self.x_potential_forks@,
            Marker::O => self.o_potential_forks@,
        }
    }

    /// The metadata of the empty board: nothing to win, nothing to fork, all
    /// corners and edges on offer.
    fn new() -> (metadata: BoardMetadata)
        ensures
            metadata.x_winning_moves@ == Seq::<CellCoord>::empty(),
            metadata.o_winning_moves@ == Seq::<CellCoord>::empty(),
            metadata.x_potential_forks@ == Seq::<(CellCoord, SetType)>::empty(),
            metadata.o_potential_forks@ == Seq::<(CellCoord, SetType)>::empty(),
            metadata.corner_moves@ == seq![
                CellCoord::at(0, 0),
                CellCoord::at(0, 2),
                CellCoord::at(2, 2),
                CellCoord::at(2, 0),
            ],
            metadata.edge_moves@ == seq![
                CellCoord::at(0, 1),
                CellCoord::at(1, 2),
                CellCoord::at(2, 1),
                CellCoord::at(1, 0),
            ],
    {
        let corner_moves = vec![
            CellCoord::new(0, 0),
            CellCoord::new(0, 2),
            CellCoord::new(2, 2),
            CellCoord::new(2, 0),
        ];
        let edge_moves = vec![
            CellCoord::new(0, 1),
            CellCoord::new(1, 2),
            CellCoord::new(2, 1),
            CellCoord::new(1, 0),
        ];
        BoardMetadata {
            x_winning_moves: Vec::new(),
            o_winning_moves: Vec::new(),
            corner_moves,
            edge_moves,
            x_potential_forks: Vec::new(),
            o_potential_forks: Vec::new(),
        }
    }
    /// The entries recorded for the lines of the board are all of valid lines.
    spec fn lines_valid(entries: Seq<(CellCoord, SetType)>) -> bool {
        forall|i: int| 0 <= i < entries.len() ==> line_valid(#[trigger] entries[i].1)
    }

    /// The pools of corner and edge moves are those of `before`.
    pub closed spec fn same_pools(&self, before: &BoardMetadata) -> bool {
        &&& self.corner_moves@ == before.corner_moves@
        &&& self.edge_moves@ == before.edge_moves@
    }

    spec fn same_forks(&self, before: &BoardMetadata) -> bool {
        &&& self.x_potential_forks@ == before.x_potential_forks@
        &&& self.o_potential_forks@ == before.o_potential_forks@
    }

    spec fn same_winning(&self, before: &BoardMetadata) -> bool {
        &&& self.x_winning_moves@ == before.x_winning_moves@
        &&& self.o_winning_moves@ == before.o_winning_moves@
    }

    fn add_winning_coord(&mut self, winning_coord: CellCoord, marker: Marker)
        ensures
            final(self).winning(marker) == old(self).winning(marker).push(winning_coord),
            final(self).winning(Marker::other(marker)) == old(self).winning(Marker::other(marker)),
            final(self).same_forks(old(self)),
            final(self).same_pools(old(self)),
    {
        match marker {
            Marker::X => self.x_winning_moves.push(winning_coord),
            Marker::O => self.o_winning_moves.push(winning_coord),
        }
    }

    fn get_winning_coords(&self, marker: Marker) -> (coords: Option<Vec<CellCoord>>)
        ensures
            self.winning(marker).len() == 0 ==> coords is None,
            self.winning(marker).len() > 0 ==> coords is Some && coords->0@ == self.winning(
                marker,
            ),
    {
        let winning_moves = match marker {
            Marker::X => &self.x_winning_moves,
            Marker::O => &self.o_winning_moves,
        };
        if winning_moves.len() > 0 {
            Some(winning_moves.clone())
        } else {
            None
        }
    }

    fn add_potential_fork(&mut self, coord: CellCoord, set_type: SetType, marker: Marker)
        ensures
            final(self).candidates(marker) == old(self).candidates(marker).push((coord, set_type)),
            final(self).candidates(Marker::other(marker)) == old(self).candidates(
                Marker::other(marker),
            ),
            final(self).same_winning(old(self)),
            final(self).same_pools(old(self)),
    {
        match marker {
            Marker::X => self.x_potential_forks.push((coord, set_type)),
            Marker::O => self.o_potential_forks.push((coord, set_type)),
        }
    }

    /// The cell that two lines share, by the kind of the two lines.
    fn get_intersection(set1: SetType, set2: SetType) -> (coord: Option<CellCoord>)
        requires
            line_valid(set1),
            line_valid(set2),
        ensures
            coord == intersection(set1, set2),
    {
        match (set1, set2) {
            (SetType::Row(row_index), SetType::Column(col_index)) | (
                SetType::Column(col_index),
                SetType::Row(row_index),
            ) => Some(CellCoord::new(row_index, col_index)),
            (SetType::Row(row_index), SetType::Diag1) | (SetType::Diag1, SetType::Row(row_index)) => {
                Some(CellCoord::new(row_index, row_index))
            },
            (SetType::Row(row_index), SetType::Diag2) | (SetType::Diag2, SetType::Row(row_index)) => {
                Some(CellCoord::new(row_index, 2 - row_index))
            },
            (SetType::Column(col_index), SetType::Diag1) | (
                SetType::Diag1,
                SetType::Column(col_index),
            ) => Some(CellCoord::new(col_index, col_index)),
            (SetType::Column(col_index), SetType::Diag2) | (
                SetType::Diag2,
                SetType::Column(col_index),
            ) => Some(CellCoord::new(2 - col_index, col_index)),
            (SetType::Diag1, SetType::Diag2) | (SetType::Diag2, SetType::Diag1) => Some(
                CellCoord::new(1, 1),
            ),
            _ => None,
        }
    }

    /// Whether the coordinate is among those collected.
    fn has_coord(coords: &Vec<CellCoord>, coord: CellCoord) -> (found: bool)
        ensures
            found == coords@.contains(coord),
    {
        let mut i: usize = 0;
        while i < coords.len()
            invariant
                i <= coords.len(),
                forall|k: int| 0 <= k < i ==> coords@[k] != coord,
            decreases coords.len() - i,
        {
            if coords[i] == coord {
                return true;
            }
            i += 1;
        }
        false
    }

    fn get_fork_coords(&self, marker: Marker) -> (result: Vec<CellCoord>)
        requires
            BoardMetadata::lines_valid(self.candidates(marker)),
        ensures
            result@.no_duplicates(),
            forall|c: CellCoord| result@.contains(c) <==> crossing(self.candidates(marker), c),
    {
        // Fork coordinates are the intersection of two sets (row, col, diag) that have
        // fork potential.
        let forks = match marker {
            Marker::X => &self.x_potential_forks,
            Marker::O => &self.o_potential_forks,
        };
        let ghost entries = forks@;
        let mut result: Vec<CellCoord> = Vec::new();
        let mut i: usize = 0;
        while i < forks.len()
            invariant
                i <= forks.len(),
                entries == forks@,
                BoardMetadata::lines_valid(entries),
                result@.no_duplicates(),
                forall|c: CellCoord|
                    result@.contains(c) <==> crossing_before(entries, i as int, 0, c),
            decreases forks.len() - i,
        {
            let entry1 = forks[i];
            let mut j: usize = 0;
            while j < forks.len()
                invariant
                    i < forks.len(),
                    j <= forks.len(),
                    entries == forks@,
                    entry1 == entries[i as int],
                    BoardMetadata::lines_valid(entries),
                    result@.no_duplicates(),
                    forall|c: CellCoord|
                        result@.contains(c) <==> crossing_before(entries, i as int, j as int, c),
                decreases forks.len() - j,
            {
                let entry2 = forks[j];
                let ghost before = result@;
                if entry1.0 != entry2.0 {
                    if let Some(coord) = BoardMetadata::get_intersection(entry1.1, entry2.1) {
                        if !BoardMetadata::has_coord(&result, coord) {
                            result.push(coord);
                        }
                    }
                }
                proof {
                    let hit = entries[i as int].0 != entries[j as int].0 && intersection(
                        entries[i as int].1,
                        entries[j as int].1,
                    ) is Some;
                    let coord = intersection(entries[i as int].1, entries[j as int].1)->0;
                    assert(result@ == if hit && !before.contains(coord) {
                        before.push(coord)
                    } else {
                        before
                    });
                    assert forall|c: CellCoord|
                        result@.contains(c) <==> crossing_before(
                            entries,
                            i as int,
                            j as int + 1,
                            c,
                        ) by {
                        lemma_crossing_step(entries, i as int, j as int, c);
                        if before.contains(c) {
                            let k = choose|k: int| 0 <= k < before.len() && before[k] == c;
                            assert(result@[k] == c);
                        }
                        if hit && c == coord && !before.contains(coord) {
                            assert(result@[result@.len() - 1] == c);
                        }
                    }
                }
                j += 1;
            }
            proof {
                assert forall|c: CellCoord|
                    result@.contains(c) <==> crossing_before(entries, i as int + 1, 0, c) by {
                    lemma_crossing_row(entries, i as int, c);
                }
            }
            i += 1;
        }
        proof {
            assert forall|c: CellCoord| result@.contains(c) <==> crossing(entries, c) by {
                lemma_crossing_all(entries, c);
            }
        }
        result
    }

    fn get_potential_forks(&self, marker: Marker) -> (forks: Vec<(CellCoord, SetType)>)
        ensures
            forks@ == self.candidates(marker),
    {
        let entries = match marker {
            Marker::X => &self.x_potential_forks,
            Marker::O => &self.o_potential_forks,
        };
        let mut forks: Vec<(CellCoord, SetType)> = Vec::new();
        let mut i: usize = 0;
        while i < entries.len()
            invariant
                i <= entries.len(),
                forks@ == entries@.take(i as int),
            decreases entries.len() - i,
        {
            forks.push(entries[i]);
            i += 1;
        }
        forks
    }

    fn get_corner_coords(&self) -> (coord: Option<CellCoord>)
        ensures
            self.corner_moves@.len() == 0 ==> coord is None,
            self.corner_moves@.len() > 0 ==> coord is Some && self.corner_moves@.contains(coord->0),
    {
        let mut rng = rand::thread_rng();
        choose_move(&self.corner_moves, &mut rng)
    }

    /// The moves other than `coord`, in their order.
    fn retain_others(moves: &Vec<CellCoord>, coord: CellCoord) -> (kept: Vec<CellCoord>)
        ensures
            kept@ == without(moves@, coord),
    {
        let mut kept: Vec<CellCoord> = Vec::new();
        let mut i: usize = 0;
        proof {
            reveal(Seq::filter);
        }
        while i < moves.len()
            invariant
                i <= moves.len(),
                kept@ == without(moves@.take(i as int), coord),
            decreases moves.len() - i,
        {
            let cell_coord = moves[i];
            proof {
                reveal(Seq::filter);
                let next = moves@.take(i as int + 1);
                assert(next.drop_last() =~= moves@.take(i as int));
            }
            if cell_coord != coord {
                kept.push(cell_coord);
            }
            i += 1;
        }
        proof {
            assert(moves@.take(moves@.len() as int) =~= moves@);
        }
        kept
    }

    fn remove_corner_move(&mut self, coord: CellCoord)
        ensures
            final(self).corner_moves@ == without(old(self).corner_moves@, coord),
            final(self).edge_moves@ == old(self).edge_moves@,
            final(self).same_winning(old(self)),
            final(self).same_forks(old(self)),
    {
        self.corner_moves = BoardMetadata::retain_others(&self.corner_moves, coord);
    }

    fn get_edge_coords(&self) -> (coord: Option<CellCoord>)
        ensures
            self.edge_moves@.len() == 0 ==> coord is None,
            self.edge_moves@.len() > 0 ==> coord is Some && self.edge_moves@.contains(coord->0),
    {
        let mut rng = rand::thread_rng();
        choose_move(&self.edge_moves, &mut rng)
    }

    fn remove_edge_move(&mut self, coord: CellCoord)
        ensures
            final(self).edge_moves@ == without(old(self).edge_moves@, coord),
            final(self).corner_moves@ == old(self).corner_moves@,
            final(self).same_winning(old(self)),
            final(self).same_forks(old(self)),
    {
        self.edge_moves = BoardMetadata::retain_others(&self.edge_moves, coord);
    }

    /// Forgets the winning moves and the fork candidates; the pools stay.
    pub fn reset(&mut self)
        ensures
            final(self).winning(Marker::X) == Seq::<CellCoord>::empty(),
            final(self).winning(Marker::O) == Seq::<CellCoord>::empty(),
            final(self).candidates(Marker::X) == Seq::<(CellCoord, SetType)>::empty(),
            final(self).candidates(Marker::O) == Seq::<(CellCoord, SetType)>::empty(),
            final(self).same_pools(old(self)),
    {
        self.x_winning_moves.clear();
        self.o_winning_moves.clear();
        self.x_potential_forks.clear();
        self.o_potential_forks.clear();
    }
}

/// The entries at `a` and `b` were recorded for different cells and their
/// lines meet in `c`.
spec fn pair_hits(entries: Seq<(CellCoord, SetType)>, a: int, b: int, c: CellCoord) -> bool {
    entries[a].0 != entries[b].0 && intersection(entries[a].1, entries[b].1) == Some(c)
}

/// Whether `c` is met by a pair of entries that the nested walk over the
/// entries has handled before it reaches the pair `(i, j)`.
spec fn crossing_before(
    entries: Seq<(CellCoord, SetType)>,
    i: int,
    j: int,
    c: CellCoord,
) -> bool {
    exists|a: int, b: int|
        0 <= a < entries.len() && 0 <= b < entries.len() && (a < i || (a == i && b < j))
            && #[trigger] pair_hits(entries, a, b, c)
}

/// Handling the pair `(i, j)` adds what that pair meets.
proof fn lemma_crossing_step(entries: Seq<(CellCoord, SetType)>, i: int, j: int, c: CellCoord)
    requires
        0 <= i < entries.len(),
        0 <= j < entries.len(),
    ensures
        crossing_before(entries, i, j + 1, c) <==> (crossing_before(entries, i, j, c) || pair_hits(
            entries,
            i,
            j,
            c,
        )),
{
}

/// The end of one row of the walk is the start of the next.
proof fn lemma_crossing_row(entries: Seq<(CellCoord, SetType)>, i: int, c: CellCoord)
    requires
        0 <= i < entries.len(),
    ensures
        crossing_before(entries, i, entries.len() as int, c) <==> crossing_before(
            entries,
            i + 1,
            0,
            c,
        ),
{
}

/// At the end of the walk every pair has been handled.
proof fn lemma_crossing_all(entries: Seq<(CellCoord, SetType)>, c: CellCoord)
    ensures
        crossing_before(entries, entries.len() as int, 0, c) <==> crossing(entries, c),
{
    if crossing(entries, c) {
        let (a, b) = choose|a: int, b: int|
            0 <= a < entries.len() && 0 <= b < entries.len() && entries[a].0 != entries[b].0
                && #[trigger] intersection(entries[a].1, entries[b].1) == Some(c);
        assert(pair_hits(entries, a, b, c));
    }
}

} // verus!
