//! The players: move-selection policies that read the board's tactical
//! metadata and answer with a coordinate.

pub mod ai_basic;
pub mod ai_forking;
pub mod ai_optimal;
pub mod ai_random;
pub mod human;
pub mod random_computer;

use vstd::prelude::*;
use crate::board::Board;
use crate::common::{in_bounds, CellCoord, CellState, Marker, Move};
use crate::grid::{
    cell, grid_wf, is_fork_cell, is_open, marker_count, validate, winning_moves, Grid,
};
use crate::player::ai_basic::BasicAI;
use crate::player::ai_forking::ForkingAI;
use crate::player::ai_optimal::OptimalAI;
use crate::player::ai_random::RandomAI;
use crate::random::shuffle_moves;

verus! {

/// A policy that picks a valid move on a board that still has an empty cell.
/// The lifetime is that of the player's name.
pub trait Player<'a> {
    /// Whether the player can still answer on the grid: a player that draws
    /// from a stock of moves is ready while the stock holds every empty cell.
    spec fn ready(&self, g: Grid) -> bool;

    /// The marker the player places.
    spec fn mark(&self) -> Marker;

    /// The name the player goes by.
    spec fn label(&self) -> &'a str;

    /// A fresh player under the name that places the marker. It is ready
    /// for every grid.
    fn new(name: &'a str, marker: Marker) -> (player: Self) where Self: Sized
        ensures
            player.mark() == marker,
            player.label() == name,
            forall|g: Grid| grid_wf(g) ==> #[trigger] player.ready(g),
    ;

    /// A valid move on a board that has an empty cell. A player that was
    /// ready stays ready for every grid that the board can become once the
    /// move is placed.
    fn get_valid_move(&mut self, board: &Board) -> (coord: CellCoord)
        requires
            board.wf(),
            marker_count(board@) < 9,
            old(self).ready(board@),
        ensures
            coord.wf(),
            validate(board@, coord) == Move::Valid,
            final(self).mark() == old(self).mark(),
            final(self).label() == old(self).label(),
            forall|later: Grid|
                fills(board@, later) && !is_open(later, coord) ==> #[trigger] final(self).ready(
                    later,
                ),
    ;

    /// The marker the player places.
    fn get_marker(&self) -> (marker: Marker)
        ensures
            marker == self.mark(),
    ;

    /// The name the player goes by.
    fn get_name(&self) -> (name: &'a str)
        ensures
            name == self.label(),
    ;
}

/// One of the computer players, chosen when a game is set up.
pub enum Computer<'a> {
    Random(RandomAI<'a>),
    Basic(BasicAI<'a>),
    Forking(ForkingAI<'a>),
    Optimal(OptimalAI<'a>),
}

impl<'a> Computer<'a> {
    /// Whether the player can still answer on the grid.
    pub open spec fn ready(&self, g: Grid) -> bool {
        match self {
            Computer::Random(player) => player.ready(g),
            Computer::Basic(player) => player.ready(g),
            Computer::Forking(player) => player.ready(g),
            Computer::Optimal(player) => player.ready(g),
        }
    }

    /// The marker the player places.
    pub open spec fn mark(&self) -> Marker {
        match self {
            Computer::Random(player) => player.mark(),
            Computer::Basic(player) => player.mark(),
            Computer::Forking(player) => player.mark(),
            Computer::Optimal(player) => player.mark(),
        }
    }

    /// The name the player goes by.
    pub open spec fn label(&self) -> &'a str {
        match self {
            Computer::Random(player) => player.label(),
            Computer::Basic(player) => player.label(),
            Computer::Forking(player) => player.label(),
            Computer::Optimal(player) => player.label(),
        }
    }

    /// The move of whichever player this is.
    pub fn get_valid_move(&mut self, board: &Board) -> (coord: CellCoord)
        requires
            board.wf(),
            marker_count(board@) < 9,
            old(self).ready(board@),
        ensures
            coord.wf(),
            validate(board@, coord) == Move::Valid,
            final(self).mark() == old(self).mark(),
            final(self).label() == old(self).label(),
            forall|later: Grid|
                fills(board@, later) && !is_open(later, coord) ==> #[trigger] final(self).ready(
                    later,
                ),
    {
        match self {
            Computer::Random(player) => player.get_valid_move(board),
            Computer::Basic(player) => player.get_valid_move(board),
            Computer::Forking(player) => player.get_valid_move(board),
            Computer::Optimal(player) => player.get_valid_move(board),
        }
    }

    /// The marker the player places.
    pub fn get_marker(&self) -> (marker: Marker)
        ensures
            marker == self.mark(),
    {
        match self {
            Computer::Random(player) => player.get_marker(),
            Computer::Basic(player) => player.get_marker(),
            Computer::Forking(player) => player.get_marker(),
            Computer::Optimal(player) => player.get_marker(),
        }
    }

    /// The name the player goes by.
    pub fn get_name(&self) -> (name: &'a str)
        ensures
            name == self.label(),
    {
        match self {
            Computer::Random(player) => player.get_name(),
            Computer::Basic(player) => player.get_name(),
            Computer::Forking(player) => player.get_name(),
            Computer::Optimal(player) => player.get_name(),
        }
    }
}

/// `later` is a grid on which every cell marked on `g` is still marked.
pub open spec fn fills(g: Grid, later: Grid) -> bool {
    &&& grid_wf(later)
    &&& forall|r: int, k: int|
        in_bounds(r, k) && cell(g, r, k) != CellState::Empty ==> #[trigger] cell(later, r, k)
            != CellState::Empty
}

/// The move that wins at once, or else the move that keeps the opponent from
/// winning at once; none where neither marker has a winning move.
pub open spec fn win_or_block(g: Grid, me: Marker) -> Option<CellCoord> {
    if winning_moves(g, me).len() > 0 {
        Some(winning_moves(g, me).last())
    } else if winning_moves(g, Marker::other(me)).len() > 0 {
        Some(winning_moves(g, Marker::other(me)).last())
    } else {
        None
    }
}

/// Some cell lets the marker fork.
pub open spec fn can_fork(g: Grid, m: Marker) -> bool {
    exists|c: CellCoord| #[trigger] is_fork_cell(g, c, m)
}

/// A stocked player stays stocked on every grid that only fills up.
pub proof fn lemma_stocked_later(moves: Seq<CellCoord>, g: Grid, later: Grid)
    requires
        stocked(moves, g),
        fills(g, later),
    ensures
        stocked(moves, later),
{
    assert forall|c: CellCoord| c.wf() && #[trigger] is_open(later, c) implies moves.contains(c) by {
        assert(is_open(g, c));
    }
}

/// The nine cells of the grid, row by row.
pub open spec fn all_cells() -> Seq<CellCoord> {
    Seq::new(9, |i: int| CellCoord::at(i / 3, i % 3))
}

/// A stock of moves holds every empty cell of the grid.
pub open spec fn covers(moves: Seq<CellCoord>, g: Grid) -> bool {
    forall|c: CellCoord| c.wf() && #[trigger] is_open(g, c) ==> moves.contains(c)
}

/// A stock of well-formed coordinates that holds every empty cell of the
/// grid.
pub open spec fn stocked(moves: Seq<CellCoord>, g: Grid) -> bool {
    &&& forall|i: int| 0 <= i < moves.len() ==> (#[trigger] moves[i]).wf()
    &&& covers(moves, g)
}

/// Drawing from the end of `moves` until a valid move comes up yields
/// `coord` and leaves `rest`: `coord` is the last valid move of the stock,
/// and `rest` is what stood before it.
pub open spec fn draws(
    moves: Seq<CellCoord>,
    g: Grid,
    coord: CellCoord,
    rest: Seq<CellCoord>,
) -> bool {
    exists|k: int|
        0 <= k < moves.len() && #[trigger] moves[k] == coord && validate(g, coord) == Move::Valid
            && rest == moves.take(k) && forall|j: int|
            k < j < moves.len() ==> validate(g, #[trigger] moves[j]) != Move::Valid
}

/// A grid with fewer than nine marked cells has an empty cell.
pub proof fn lemma_open_cell_exists(g: Grid)
    requires
        grid_wf(g),
        marker_count(g) < 9,
    ensures
        exists|c: CellCoord| c.wf() && #[trigger] is_open(g, c),
{
    if cell(g, 0, 0) == CellState::Empty {
        assert(is_open(g, CellCoord::at(0, 0)));
    } else if cell(g, 0, 1) == CellState::Empty {
        assert(is_open(g, CellCoord::at(0, 1)));
    } else if cell(g, 0, 2) == CellState::Empty {
        assert(is_open(g, CellCoord::at(0, 2)));
    } else if cell(g, 1, 0) == CellState::Empty {
        assert(is_open(g, CellCoord::at(1, 0)));
    } else if cell(g, 1, 1) == CellState::Empty {
        assert(is_open(g, CellCoord::at(1, 1)));
    } else if cell(g, 1, 2) == CellState::Empty {
        assert(is_open(g, CellCoord::at(1, 2)));
    } else if cell(g, 2, 0) == CellState::Empty {
        assert(is_open(g, CellCoord::at(2, 0)));
    } else if cell(g, 2, 1) == CellState::Empty {
        assert(is_open(g, CellCoord::at(2, 1)));
    } else {
        assert(is_open(g, CellCoord::at(2, 2)));
    }
}

/// A stock that holds the nine cells in some order is stocked for every
/// grid.
pub proof fn lemma_shuffled_stocked(moves: Seq<CellCoord>, g: Grid)
    requires
        moves.to_multiset() == all_cells().to_multiset(),
    ensures
        stocked(moves, g),
        moves.len() == 9,
{
    vstd::seq_lib::to_multiset_len(moves);
    vstd::seq_lib::to_multiset_len(all_cells());
    assert forall|c: CellCoord| c.wf() && #[trigger] is_open(g, c) implies moves.contains(c) by {
        let i = c.row * 3 + c.column;
        assert(all_cells()[i] == c);
        vstd::seq_lib::to_multiset_contains(all_cells(), c);
        vstd::seq_lib::to_multiset_contains(moves, c);
    }
    assert forall|i: int| 0 <= i < moves.len() implies (#[trigger] moves[i]).wf() by {
        vstd::seq_lib::to_multiset_contains(all_cells(), moves[i]);
        vstd::seq_lib::to_multiset_contains(moves, moves[i]);
        assert(all_cells().contains(moves[i]));
    }
}

/// The nine cells of the grid in a drawn order.
pub fn shuffled_moves() -> (move_set: Vec<CellCoord>)
    ensures
        move_set@.to_multiset() == all_cells().to_multiset(),
{
    // Every pair of a row and a column, row by row, gives all possible cell
    // coordinates; the stock is shuffled afterwards.
    let mut move_set: Vec<CellCoord> = Vec::new();
    let mut row: usize = 0;
    while row < 3
        invariant
            row <= 3,
            move_set@ == all_cells().take(row * 3),
        decreases 3 - row,
    {
        let mut column: usize = 0;
        while column < 3
            invariant
                row < 3,
                column <= 3,
                move_set@ == all_cells().take(row * 3 + column),
            decreases 3 - column,
        {
            move_set.push(CellCoord::new(row, column));
            column += 1;
        }
        row += 1;
    }
    proof {
        assert(move_set@ =~= all_cells());
    }
    let mut rng = rand::thread_rng();
    shuffle_moves(&mut move_set, &mut rng);
    move_set
}

/// The winning move of the player, or else the winning move of the opponent.
pub fn find_win_or_block(board: &Board, marker: Marker) -> (coord: Option<CellCoord>)
    requires
        board.wf(),
    ensures
        coord == win_or_block(board@, marker),
        coord matches Some(c) ==> c.wf() && validate(board@, c) == Move::Valid,
{
    // place winning move if there is one
    if let Some(cell_coord) = board.get_winning_move(marker) {
        return Some(cell_coord);
    }
    // block opponent's winning move if they have one

    if let Some(cell_coord) = board.get_winning_move(Marker::opposite(marker)) {
        return Some(cell_coord);
    }
    None
}

/// Draws moves from the end of the stock until one is valid on the board.
pub fn draw_valid_move(move_set: &mut Vec<CellCoord>, board: &Board) -> (coord: CellCoord)
    requires
        board.wf(),
        marker_count(board@) < 9,
        stocked(old(move_set)@, board@),
    ensures
        coord.wf(),
        draws(old(move_set)@, board@, coord, final(move_set)@),
        forall|later: Grid|
            fills(board@, later) && !is_open(later, coord) ==> #[trigger] stocked(
                final(move_set)@,
                later,
            ),
{
    let ghost moves = move_set@;
    proof {
        lemma_open_cell_exists(board@);
    }
    loop
        invariant
            board.wf(),
            moves == old(move_set)@,
            move_set@ == moves.take(move_set@.len() as int),
            move_set@.len() <= moves.len(),
            stocked(move_set@, board@),
            stocked(moves, board@),
            exists|c: CellCoord| c.wf() && #[trigger] is_open(board@, c),
            forall|j: int|
                move_set@.len() <= j < moves.len() ==> validate(board@, #[trigger] moves[j])
                    != Move::Valid,
        decreases move_set@.len(),
    {
        proof {
            // An empty cell is left, and the stock holds it.
            let c = choose|c: CellCoord| c.wf() && #[trigger] is_open(board@, c);
            assert(move_set@.contains(c));
        }
        let ghost stock = move_set@;
        let player_move = move_set.pop().unwrap();
        if let Move::Valid = board.validate_move(player_move) {
            proof {
                assert forall|c: CellCoord| c.wf() && #[trigger] is_open(board@, c) && c
                    != player_move implies move_set@.contains(c) by {
                    let i = choose|i: int| 0 <= i < stock.len() && stock[i] == c;
                    assert(move_set@[i] == c);
                }
                assert forall|later: Grid|
                    fills(board@, later) && !is_open(later, player_move) implies #[trigger] stocked(
                    move_set@,
                    later,
                ) by {
                    assert forall|c: CellCoord| c.wf() && #[trigger] is_open(later, c) implies move_set@.contains(
                        c,
                    ) by {
                        assert(is_open(board@, c));
                    }
                }
                let k = move_set@.len() as int;
                assert(moves[k] == player_move && move_set@ == moves.take(k));
            }
            return player_move;
        }
        proof {
            assert forall|c: CellCoord| c.wf() && #[trigger] is_open(board@, c) implies move_set@.contains(
                c,
            ) by {
                let i = choose|i: int| 0 <= i < stock.len() && stock[i] == c;
                assert(move_set@[i] == c);
            }
        }
    }
}

} // verus!
