//! The player that wins where it can, blocks where it must, and otherwise
//! moves at random.

use vstd::prelude::*;
use crate::board::Board;
use crate::common::{CellCoord, Marker, Move};
use crate::grid::{grid_wf, is_open, marker_count, validate, Grid};
use crate::player::{
    all_cells, draw_valid_move, draws, fills, find_win_or_block, lemma_shuffled_stocked,
    lemma_stocked_later, shuffled_moves, stocked, win_or_block, Player,
};

verus! {

/// The computer player that wins, blocks, or else moves at random.
pub struct BasicAI<'a> {
    pub name: &'a str,
    pub marker: Marker,
    move_set: Vec<CellCoord>,
}

// BasicAI will make moves with the following priority:
//   1. make a winning move
//   2. block an opponents winning move
//   3. move randomly
impl<'a> BasicAI<'a> {
    /// The moves the player has still to draw from; the last one is drawn
    /// first.
    pub closed spec fn stock(&self) -> Seq<CellCoord> {
        self.move_set@
    }

    /// A player with a freshly shuffled stock of all nine moves.
    pub fn new(name: &'a str, marker: Marker) -> (player: BasicAI<'a>)
        ensures
            player.mark() == marker,
            player.label() == name,
            player.stock().to_multiset() == all_cells().to_multiset(),
            forall|g: Grid| grid_wf(g) ==> #[trigger] player.ready(g),
    {
        let move_set = shuffled_moves();
        proof {
            assert forall|g: Grid| grid_wf(g) implies #[trigger] stocked(move_set@, g) by {
                lemma_shuffled_stocked(move_set@, g);
            }
        }
        BasicAI { name, marker, move_set }
    }

    /// The winning move, else the blocking move, else the next valid move
    /// of the stock.
    pub fn get_valid_move(&mut self, board: &Board) -> (coord: CellCoord)
        requires
            board.wf(),
            marker_count(board@) < 9,
            old(self).ready(board@),
        ensures
            coord.wf(),
            validate(board@, coord) == Move::Valid,
            final(self).mark() == old(self).mark(),
            final(self).label() == old(self).label(),
            win_or_block(board@, old(self).mark()) matches Some(c) ==> coord == c
                && final(self).stock() == old(self).stock(),
            win_or_block(board@, old(self).mark()) is None ==> draws(
                old(self).stock(),
                board@,
                coord,
                final(self).stock(),
            ),
            forall|later: Grid|
                fills(board@, later) && !is_open(later, coord) ==> #[trigger] final(self).ready(
                    later,
                ),
    {
        if let Some(cell_coord) = find_win_or_block(board, self.marker) {
            proof {
                assert forall|later: Grid| fills(board@, later) implies #[trigger] stocked(
                    self.move_set@,
                    later,
                ) by {
                    lemma_stocked_later(self.move_set@, board@, later);
                }
            }
            return cell_coord;
        }
        draw_valid_move(&mut self.move_set, board)
    }
}

impl<'a> Player<'a> for BasicAI<'a> {
    closed spec fn ready(&self, g: Grid) -> bool {
        stocked(self.move_set@, g)
    }

    closed spec fn mark(&self) -> Marker {
        self.marker
    }

    closed spec fn label(&self) -> &'a str {
        self.name
    }

    fn new(name: &'a str, marker: Marker) -> (player: BasicAI<'a>) {
        BasicAI::new(name, marker)
    }

    fn get_marker(&self) -> (marker: Marker) {
        self.marker
    }

    fn get_name(&self) -> (name: &'a str) {
        self.name
    }

    fn get_valid_move(&mut self, board: &Board) -> (coord: CellCoord) {
        BasicAI::get_valid_move(self, board)
    }
}

} // verus!
