//! The computer that plays a shuffled list of all moves from front to back,
//! whatever the board holds.

use vstd::prelude::*;
use crate::common::{CellCoord, Marker};
use crate::player::{all_cells, shuffled_moves};

verus! {

/// The computer that plays its shuffled moves one after the other.
pub struct RandomComputer {
    pub name: String,
    pub marker: Marker,
    move_set: Vec<CellCoord>,
    move_index: usize,
}

impl RandomComputer {
    /// The moves in the order in which the computer plays them.
    pub closed spec fn moves(&self) -> Seq<CellCoord> {
        self.move_set@
    }

    /// How many moves the computer has played.
    pub closed spec fn played(&self) -> int {
        self.move_index as int
    }

    /// The marker the computer places.
    pub closed spec fn mark(&self) -> Marker {
        self.marker
    }

    /// The name the computer goes by.
    pub closed spec fn label(&self) -> Seq<char> {
        self.name@
    }

    /// A computer with a freshly shuffled list of all nine moves.
    pub fn new(name: String, marker: Marker) -> (computer: RandomComputer)
        ensures
            computer.moves().to_multiset() == all_cells().to_multiset(),
            computer.moves().len() == 9,
            computer.played() == 0,
            computer.mark() == marker,
            computer.label() == name@,
    {
        // The move set enumerates all possible cell coordinates in a
        // shuffled order.
        let move_set = shuffled_moves();
        proof {
            vstd::seq_lib::to_multiset_len(move_set@);
            vstd::seq_lib::to_multiset_len(all_cells());
        }
        RandomComputer { name, marker, move_set, move_index: 0 }
    }

    /// The next move of the list. The list holds nine moves, and a game
    /// needs no more.
    pub fn get_move(&mut self) -> (next_move: CellCoord)
        requires
            old(self).played() < old(self).moves().len(),
        ensures
            next_move == old(self).moves()[old(self).played()],
            final(self).played() == old(self).played() + 1,
            final(self).moves() == old(self).moves(),
            final(self).mark() == old(self).mark(),
            final(self).label() == old(self).label(),
    {
        let next_move = self.move_set[self.move_index];
        proof {
            assert(self.move_index < self.move_set.len());
        }
        self.move_index += 1;
        next_move
    }
}

} // verus!
