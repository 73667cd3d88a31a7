//! The player that also looks for forks.

use vstd::prelude::*;
use crate::board::Board;
use crate::common::{CellCoord, Marker};
use crate::grid::{grid_wf, is_fork_cell, Grid};
use crate::player::{
    all_cells, can_fork, draw_valid_move, draws, fills, find_win_or_block, lemma_shuffled_stocked,
    lemma_stocked_later, shuffled_moves, stocked, win_or_block, Player,
};

verus! {

/// The computer player that wins, blocks, forks, takes a fork from the
/// opponent, or else moves at random.
pub struct ForkingAI<'a> {
    pub name: &'a str,
    pub marker: Marker,
    move_set: Vec<CellCoord>,
}

impl<'a> ForkingAI<'a> {
    /// The moves the player has still to draw from; the last one is drawn
    /// first.
    pub closed spec fn stock(&self) -> Seq<CellCoord> {
        self.move_set@
    }
}

// ForkingAI will make moves with the following priority:
//   1. make a winning move
//   2. block an opponents winning move
//   3. create a fork if possible
//   4. take a cell where the opponent could fork
//   5. move randomly
impl<'a> Player<'a> for ForkingAI<'a> {
    closed spec fn ready(&self, g: Grid) -> bool {
        stocked(self.move_set@, g)
    }

    closed spec fn mark(&self) -> Marker {
        self.marker
    }

    closed spec fn label(&self) -> &'a str {
        self.name
    }

    fn new(name: &'a str, marker: Marker) -> (player: ForkingAI<'a>)
        ensures
            player.stock().to_multiset() == all_cells().to_multiset(),
    {
        let move_set = shuffled_moves();
        proof {
            assert forall|g: Grid| grid_wf(g) implies #[trigger] stocked(move_set@, g) by {
                lemma_shuffled_stocked(move_set@, g);
            }
        }
        ForkingAI { name, marker, move_set }
    }

    fn get_marker(&self) -> (marker: Marker) {
        self.marker
    }

    fn get_name(&self) -> (name: &'a str) {
        self.name
    }

    fn get_valid_move(&mut self, board: &Board) -> (coord: CellCoord)
        ensures
            win_or_block(board@, old(self).mark()) matches Some(c) ==> coord == c,
            win_or_block(board@, old(self).mark()) is None && can_fork(board@, old(self).mark())
                ==> is_fork_cell(board@, coord, old(self).mark()),
            win_or_block(board@, old(self).mark()) is None && !can_fork(board@, old(self).mark())
                && can_fork(board@, Marker::other(old(self).mark())) ==> is_fork_cell(
                board@,
                coord,
                Marker::other(old(self).mark()),
            ),
            win_or_block(board@, old(self).mark()) is None && !can_fork(board@, old(self).mark())
                && !can_fork(board@, Marker::other(old(self).mark())) ==> draws(
                old(self).stock(),
                board@,
                coord,
                final(self).stock(),
            ),
    {
        proof {
            assert forall|later: Grid| fills(board@, later) implies #[trigger] stocked(
                self.move_set@,
                later,
            ) by {
                lemma_stocked_later(self.move_set@, board@, later);
            }
        }
        if let Some(cell_coord) = find_win_or_block(board, self.marker) {
            return cell_coord;
        }
        // make a fork if possible

        let forking_moves = board.get_forking_move(self.marker);
        if !forking_moves.is_empty() {
            proof {
                assert(forking_moves@.contains(forking_moves@[0]));
            }
            return forking_moves[0];
        }
        proof {
            assert forall|c: CellCoord| !is_fork_cell(board@, c, self.marker) by {
                assert(!forking_moves@.contains(c));
            }
        }
        // block opponent's fork

        let opp_forking_moves = board.get_forking_move(Marker::opposite(self.marker));
        if !opp_forking_moves.is_empty() {
            proof {
                assert(opp_forking_moves@.contains(opp_forking_moves@[0]));
            }
            return opp_forking_moves[0];
        }
        proof {
            assert forall|c: CellCoord|
                !is_fork_cell(board@, c, Marker::other(self.marker)) by {
                assert(!opp_forking_moves@.contains(c));
            }
        }
        draw_valid_move(&mut self.move_set, board)
    }
}

} // verus!
