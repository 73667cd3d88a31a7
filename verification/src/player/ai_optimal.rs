//! The player that follows the full priority list: win, block, fork, answer
//! the opponent's fork, force a defence, center, corner, edge.

use vstd::prelude::*;
use crate::board::{Board, SetType};
use crate::common::{CellCoord, CellType, Marker, Move};
use crate::grid::{
    cell, cell_at, fork_candidates, grid_wf, is_fork_cell, is_open, is_open_of_class, line_coord,
    line_valid, marker_count, open_corners, validate, Grid,
};
use crate::lemmas::{
    is_candidate, lemma_candidates_valid, lemma_fork_candidates, lemma_line_cells, lemma_without,
    without,
};
use crate::player::{can_fork, find_win_or_block, win_or_block, Player};

verus! {

/// The computer player that follows the full priority list.
pub struct OptimalAI<'a> {
    pub name: &'a str,
    pub marker: Marker,
}

/// The cells of a line other than `placed`, in the order of the line.
pub open spec fn others_on(t: SetType, placed: CellCoord) -> Seq<CellCoord> {
    without(seq![line_coord(t, 0), line_coord(t, 1), line_coord(t, 2)], placed)
}

/// The first of the cells from place `from` on that is a fork of the
/// opponent.
pub open spec fn first_fork(
    empties: Seq<CellCoord>,
    is_fork: spec_fn(CellCoord) -> bool,
    from: int,
) -> Option<CellCoord>
    decreases empties.len() - from,
{
    if from < 0 || from >= empties.len() {
        None
    } else if is_fork(empties[from]) {
        Some(empties[from])
    } else {
        first_fork(empties, is_fork, from + 1)
    }
}

/// Every one of the cells is a fork of the opponent.
pub open spec fn all_forks(empties: Seq<CellCoord>, is_fork: spec_fn(CellCoord) -> bool) -> bool {
    forall|i: int| 0 <= i < empties.len() ==> is_fork(#[trigger] empties[i])
}

/// The move that forces the opponent to defend without handing them a fork.
/// It is sought on the first line, from place `from` of the player's
/// single-marker lines on, of which not both empty cells are forks of the
/// opponent. On that line the player takes the empty cell that is a fork of
/// the opponent, so that the forced reply lands on the other one; where
/// neither is, the first empty cell.
pub open spec fn force_defend(
    entries: Seq<(CellCoord, SetType)>,
    is_fork: spec_fn(CellCoord) -> bool,
    from: int,
) -> Option<CellCoord>
    decreases entries.len() - from,
{
    if from < 0 || from >= entries.len() {
        None
    } else {
        let empties = others_on(entries[from].1, entries[from].0);
        if all_forks(empties, is_fork) {
            force_defend(entries, is_fork, from + 1)
        } else {
            match first_fork(empties, is_fork, 0) {
                Some(c) => Some(c),
                None => Some(empties[0]),
            }
        }
    }
}

/// The marker forks in one cell only.
pub open spec fn sole_fork(g: Grid, m: Marker) -> bool {
    exists|c: CellCoord|
        #[trigger] is_fork_cell(g, c, m) && forall|d: CellCoord|
            #[trigger] is_fork_cell(g, d, m) ==> d == c
}

/// The forcing move of `me` on the grid.
pub open spec fn forcing_move(g: Grid, me: Marker) -> Option<CellCoord> {
    force_defend(fork_candidates(g, me), |c: CellCoord| is_fork_cell(g, c, Marker::other(me)), 0)
}

/// The two cells of a single-marker line other than the marked one are
/// well-formed coordinates of empty cells.
pub proof fn lemma_others_open(g: Grid, m: Marker, e: (CellCoord, SetType))
    requires
        grid_wf(g),
        is_candidate(g, m, e),
    ensures
        others_on(e.1, e.0).len() == 2,
        forall|i: int|
            0 <= i < 2 ==> (#[trigger] others_on(e.1, e.0)[i]).wf() && is_open(
                g,
                others_on(e.1, e.0)[i],
            ),
{
    let t = e.1;
    let cells = seq![line_coord(t, 0), line_coord(t, 1), line_coord(t, 2)];
    lemma_line_cells(t, 0);
    lemma_line_cells(t, 1);
    lemma_line_cells(t, 2);
    lemma_without(cells, e.0);
    assert(cells.contains(e.0)) by {
        if line_coord(t, 0)@ == e.0@ {
            assert(cells[0] == e.0);
        } else if line_coord(t, 1)@ == e.0@ {
            assert(cells[1] == e.0);
        } else {
            assert(cells[2] == e.0);
        }
    }
    let rest = others_on(t, e.0);
    assert forall|i: int| 0 <= i < 2 implies (#[trigger] rest[i]).wf() && is_open(g, rest[i]) by {
        assert(rest.contains(rest[i]));
    }
}

/// The first fork among the cells, where there is one, is one of the cells.
pub proof fn lemma_first_fork(
    empties: Seq<CellCoord>,
    is_fork: spec_fn(CellCoord) -> bool,
    from: int,
)
    requires
        0 <= from,
    ensures
        first_fork(empties, is_fork, from) matches Some(c) ==> exists|i: int|
            from <= i < empties.len() && #[trigger] empties[i] == c,
    decreases empties.len() - from,
{
    if from < empties.len() && !is_fork(empties[from]) {
        lemma_first_fork(empties, is_fork, from + 1);
    }
}

/// A forcing move is a well-formed coordinate of an empty cell.
pub proof fn lemma_force_defend_open(
    g: Grid,
    m: Marker,
    is_fork: spec_fn(CellCoord) -> bool,
    from: int,
)
    requires
        grid_wf(g),
        0 <= from,
    ensures
        force_defend(fork_candidates(g, m), is_fork, from) matches Some(c) ==> c.wf() && is_open(
            g,
            c,
        ),
    decreases fork_candidates(g, m).len() - from,
{
    let entries = fork_candidates(g, m);
    if from < entries.len() {
        let empties = others_on(entries[from].1, entries[from].0);
        lemma_fork_candidates(g, m, entries[from]);
        lemma_others_open(g, m, entries[from]);
        if all_forks(empties, is_fork) {
            lemma_force_defend_open(g, m, is_fork, from + 1);
        } else {
            lemma_first_fork(empties, is_fork, 0);
        }
    }
}

/// A list of the cells where `m` forks is empty exactly when `m` cannot
/// fork.
pub proof fn lemma_no_fork(g: Grid, m: Marker, moves: Seq<CellCoord>)
    requires
        forall|c: CellCoord| #[trigger] moves.contains(c) <==> is_fork_cell(g, c, m),
    ensures
        moves.len() == 0 <==> !can_fork(g, m),
{
    if moves.len() > 0 {
        assert(moves.contains(moves[0]));
    }
    if can_fork(g, m) {
        let c = choose|c: CellCoord| #[trigger] is_fork_cell(g, c, m);
        assert(moves.contains(c));
    }
}

/// A list without duplicates of the cells where `m` forks has one element
/// exactly when `m` forks in one cell only.
pub proof fn lemma_sole_fork(g: Grid, m: Marker, moves: Seq<CellCoord>)
    requires
        moves.no_duplicates(),
        forall|c: CellCoord| #[trigger] moves.contains(c) <==> is_fork_cell(g, c, m),
    ensures
        moves.len() == 1 <==> sole_fork(g, m),
{
    if moves.len() == 1 {
        let c = moves[0];
        assert(moves.contains(c));
        assert forall|d: CellCoord| #[trigger] is_fork_cell(g, d, m) implies d == c by {
            assert(moves.contains(d));
        }
    }
    if sole_fork(g, m) {
        let c = choose|c: CellCoord|
            #[trigger] is_fork_cell(g, c, m) && forall|d: CellCoord|
                #[trigger] is_fork_cell(g, d, m) ==> d == c;
        assert(moves.contains(c));
        if moves.len() >= 2 {
            assert(moves.contains(moves[0]));
            assert(moves.contains(moves[1]));
        }
    }
}

/// The forcing move found with a list of the opponent's forks is the forcing
/// move of the grid.
pub proof fn lemma_forcing_move(g: Grid, me: Marker, moves: Seq<CellCoord>)
    requires
        forall|c: CellCoord| moves.contains(c) <==> is_fork_cell(g, c, Marker::other(me)),
    ensures
        force_defend(fork_candidates(g, me), |c: CellCoord| moves.contains(c), 0) == forcing_move(
            g,
            me,
        ),
{
    let listed = |c: CellCoord| moves.contains(c);
    let forks = |c: CellCoord| is_fork_cell(g, c, Marker::other(me));
    assert(listed =~= forks);
}

/// The move by position: the center where it is empty, else an empty corner,
/// else an empty edge.
pub open spec fn positional(g: Grid, coord: CellCoord) -> bool {
    if is_open(g, CellCoord::at(1, 1)) {
        coord == CellCoord::at(1, 1)
    } else if open_corners(g) > 0 {
        is_open_of_class(g, coord, CellType::Corner)
    } else {
        is_open_of_class(g, coord, CellType::Edge)
    }
}

impl<'a> OptimalAI<'a> {
    /// A player under the name that places the marker.
    pub fn new(name: &'a str, marker: Marker) -> (player: OptimalAI<'a>)
        ensures
            player.name == name,
            player.marker == marker,
    {
        OptimalAI { name, marker }
    }

    /// The move of highest priority that the board offers.
    pub fn get_valid_move(&mut self, board: &Board) -> (coord: CellCoord)
        requires
            board.wf(),
            marker_count(board@) < 9,
        ensures
            *final(self) == *old(self),
            coord.wf(),
            validate(board@, coord) == Move::Valid,
            win_or_block(board@, old(self).marker) matches Some(c) ==> coord == c,
            win_or_block(board@, old(self).marker) is None && can_fork(board@, old(self).marker)
                ==> is_fork_cell(board@, coord, old(self).marker),
            win_or_block(board@, old(self).marker) is None && !can_fork(board@, old(self).marker)
                && sole_fork(board@, Marker::other(old(self).marker)) ==> is_fork_cell(
                board@,
                coord,
                Marker::other(old(self).marker),
            ),
            win_or_block(board@, old(self).marker) is None && !can_fork(board@, old(self).marker)
                && !sole_fork(board@, Marker::other(old(self).marker)) ==> match forcing_move(
                board@,
                old(self).marker,
            ) {
                Some(c) => coord == c,
                None => positional(board@, coord),
            },
    {
        if let Some(cell_coord) = find_win_or_block(board, self.marker) {
            return cell_coord;
        }
        // make a fork if possible

        let forking_moves = board.get_forking_move(self.marker);
        proof {
            lemma_no_fork(board@, self.marker, forking_moves@);
        }
        if !forking_moves.is_empty() {
            proof {
                assert(forking_moves@.contains(forking_moves@[0]));
            }
            return forking_moves[0];
        }
        // block opponent's fork

        let opp_forking_moves = board.get_forking_move(Marker::opposite(self.marker));
        proof {
            lemma_sole_fork(board@, Marker::other(self.marker), opp_forking_moves@);
        }
        if opp_forking_moves.len() == 1 {
            proof {
                assert(opp_forking_moves@.contains(opp_forking_moves@[0]));
            }
            return opp_forking_moves[0];
        }
        // force opponent to defend

        let forced = self.force_defending_move(&board, &opp_forking_moves);
        proof {
            lemma_forcing_move(board@, self.marker, opp_forking_moves@);
            lemma_force_defend_open(
                board@,
                self.marker,
                |c: CellCoord| is_fork_cell(board@, c, Marker::other(self.marker)),
                0,
            );
        }
        if let Some(cell_coord) = forced {
            return cell_coord;
        }
        self.positional_move(board)
    }

    /// The center, else a corner, else an edge.
    fn positional_move(&self, board: &Board) -> (coord: CellCoord)
        requires
            board.wf(),
            marker_count(board@) < 9,
        ensures
            coord.wf(),
            validate(board@, coord) == Move::Valid,
            positional(board@, coord),
    {
        // play center
        if let Move::Valid = board.validate_move(CellCoord::new(1, 1)) {
            return CellCoord::new(1, 1);
        }
        // According to the usual priority list, the computer should play the
        // opposite corner here if its opponent is in a corner. That rule is
        // not part of this player.

        // play empty corner
        if let Some(cell_coord) = board.get_corner_move() {
            return cell_coord;
        }
        // play empty edge

        if let Some(cell_coord) = board.get_edge_move() {
            return cell_coord;
        }
        proof {
            // With the center, the corners and the edges marked the board
            // would be full.
            assert(cell(board@, 1, 1) == cell_at(board@, CellCoord::at(1, 1)));
            assert(marker_count(board@) == 9);
        }
        vstd::pervasive::unreached()
    }

    #[verifier::loop_isolation(false)]
    fn force_defending_move(&self, board: &Board, forking_moves: &Vec<CellCoord>) -> (coord: Option<
        CellCoord,
    >)
        requires
            board.wf(),
        ensures
            coord == force_defend(
                fork_candidates(board@, self.marker),
                |c: CellCoord| forking_moves@.contains(c),
                0,
            ),
    {
        // Try to place 2 in a row to force opp to defend
        // without providing them a forking move.
        let single_marker_sets = board.get_single_marker_sets(self.marker);
        let ghost entries = fork_candidates(board@, self.marker);
        let ghost is_fork = |c: CellCoord| forking_moves@.contains(c);
        proof {
            lemma_candidates_valid(board@, self.marker);
        }

        let mut i: usize = 0;
        while i < single_marker_sets.len()
            invariant
                i <= single_marker_sets.len(),
                force_defend(entries, is_fork, 0) == force_defend(entries, is_fork, i as int),
            decreases single_marker_sets.len() - i,
        {
            let (coord, set_type) = single_marker_sets[i];
            let empties: Vec<CellCoord> = self.get_empties(coord, set_type);

            let mut both_empties_are_forks = true;
            let mut k: usize = 0;
            while k < empties.len()
                invariant
                    k <= empties.len(),
                    both_empties_are_forks == (forall|j: int|
                        0 <= j < k ==> is_fork(#[trigger] empties@[j])),
                decreases empties.len() - k,
            {
                let listed = has_move(forking_moves, empties[k]);
                both_empties_are_forks = both_empties_are_forks && listed;
                k += 1;
            }

            if both_empties_are_forks {
                i += 1;
                continue;
            }
            let mut k: usize = 0;
            while k < empties.len()
                invariant
                    k <= empties.len(),
                    first_fork(empties@, is_fork, 0) == first_fork(empties@, is_fork, k as int),
                decreases empties.len() - k,
            {
                let empty = empties[k];
                if has_move(forking_moves, empty) {
                    return Some(empty);
                }
                k += 1;
            }
            return Some(empties[0]);
        }
        None
    }

    fn get_empties(&self, placed: CellCoord, set_type: SetType) -> (result: Vec<CellCoord>)
        requires
            line_valid(set_type),
        ensures
            result@ == others_on(set_type, placed),
    {
        let mut result: Vec<CellCoord> = Vec::new();
        let ghost cells = seq![
            line_coord(set_type, 0),
            line_coord(set_type, 1),
            line_coord(set_type, 2),
        ];
        proof {
            reveal(Seq::filter);
        }
        let mut index: usize = 0;
        while index < 3
            invariant
                index <= 3,
                line_valid(set_type),
                cells == seq![
                    line_coord(set_type, 0),
                    line_coord(set_type, 1),
                    line_coord(set_type, 2),
                ],
                result@ == without(cells.take(index as int), placed),
            decreases 3 - index,
        {
            let coord = match set_type {
                SetType::Row(row) => CellCoord::new(row, index),
                SetType::Column(col) => CellCoord::new(index, col),
                SetType::Diag1 => CellCoord::new(index, index),
                SetType::Diag2 => CellCoord::new(index, 2 - index),
            };
            proof {
                reveal(Seq::filter);
                let next = cells.take(index as int + 1);
                assert(next.drop_last() =~= cells.take(index as int));
            }
            if placed != coord {
                result.push(coord);
            }
            index += 1;
        }
        proof {
            assert(cells.take(3) =~= cells);
        }
        result
    }
}

/// Whether the move is among the moves.
fn has_move(moves: &Vec<CellCoord>, coord: CellCoord) -> (found: bool)
    ensures
        found == moves@.contains(coord),
{
    let mut i: usize = 0;
    while i < moves.len()
        invariant
            i <= moves.len(),
            forall|k: int| 0 <= k < i ==> moves@[k] != coord,
        decreases moves.len() - i,
    {
        if moves[i] == coord {
            return true;
        }
        i += 1;
    }
    false
}

impl<'a> Player<'a> for OptimalAI<'a> {
    open spec fn ready(&self, g: Grid) -> bool {
        true
    }

    open spec fn mark(&self) -> Marker {
        self.marker
    }

    open spec fn label(&self) -> &'a str {
        self.name
    }

    fn new(name: &'a str, marker: Marker) -> (player: OptimalAI<'a>) {
        OptimalAI::new(name, marker)
    }

    fn get_marker(&self) -> (marker: Marker) {
        self.marker
    }

    fn get_name(&self) -> (name: &'a str) {
        self.name
    }

    fn get_valid_move(&mut self, board: &Board) -> (coord: CellCoord) {
        OptimalAI::get_valid_move(self, board)
    }
}

} // verus!
