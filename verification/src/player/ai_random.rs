//! The player that moves at random.

use vstd::prelude::*;
use crate::board::Board;
use crate::common::{CellCoord, Marker};
use crate::grid::{grid_wf, Grid};
use crate::player::{
    all_cells, draw_valid_move, draws, lemma_shuffled_stocked, shuffled_moves, stocked, Player,
};

verus! {

/// The computer player that plays a shuffled stock of moves.
pub struct RandomAI<'a> {
    pub name: &'a str,
    pub marker: Marker,
    move_set: Vec<CellCoord>,
}

impl<'a> RandomAI<'a> {
    /// The moves the player has still to draw from; the last one is drawn
    /// first.
    pub closed spec fn stock(&self) -> Seq<CellCoord> {
        self.move_set@
    }

    /// A player with a freshly shuffled stock of all nine moves.
    pub fn new(name: &'a str, marker: Marker) -> (player: RandomAI<'a>)
        ensures
            player.mark() == marker,
            player.label() == name,
            player.stock().to_multiset() == all_cells().to_multiset(),
            forall|g: Grid| grid_wf(g) ==> #[trigger] player.ready(g),
    {
        // The move set enumerates all possible cell coordinates in a
        // shuffled order.
        let move_set = shuffled_moves();
        proof {
            assert forall|g: Grid| grid_wf(g) implies #[trigger] stocked(move_set@, g) by {
                lemma_shuffled_stocked(move_set@, g);
            }
        }
        RandomAI { name, marker, move_set }
    }
}

impl<'a> Player<'a> for RandomAI<'a> {
    closed spec fn ready(&self, g: Grid) -> bool {
        stocked(self.move_set@, g)
    }

    closed spec fn mark(&self) -> Marker {
        self.marker
    }

    closed spec fn label(&self) -> &'a str {
        self.name
    }

    fn new(name: &'a str, marker: Marker) -> (player: RandomAI<'a>) {
        RandomAI::new(name, marker)
    }

    fn get_marker(&self) -> (marker: Marker) {
        self.marker
    }

    fn get_name(&self) -> (name: &'a str) {
        self.name
    }

    // The computer should be smart enough to always make valid moves, so the
    // board is handed in and every drawn move is validated against it.
    fn get_valid_move(&mut self, board: &Board) -> (coord: CellCoord)
        ensures
            draws(old(self).stock(), board@, coord, final(self).stock()),
    {
        draw_valid_move(&mut self.move_set, board)
    }
}

} // verus!
