//! The game between a human, whose moves arrive from outside, and a computer
//! player: whose turn it is, what the board holds, and how the game ended.

use vstd::prelude::*;
use crate::board::{Board, BoardState};
use crate::common::{CellCoord, Marker, Move};
use crate::grid::{
    cell, empty_grid, evaluate, grid_wf, is_open, marker_count, put, validate, Grid,
};
use crate::board::symbol;
use crate::player::ai_optimal::OptimalAI;
use crate::player::human::Human;
use crate::player::{fills, Computer};
use crate::theorems::put_changes_one_cell;

verus! {

/// A game of a human against a computer player.
pub struct Game<'a> {
    player1: Human<'a>,
    player2: Computer<'a>,
    board: Board,
    record: Record<'a>,
    state: GameState,
}

/// Who won: nobody while the game goes on and after a tie.
#[derive(Debug, PartialEq, Eq, Copy, Clone, Structural)]
pub enum Winner {
    Player1,
    Player2,
    Nobody,
}

/// The record of a game: the names, the winner and the moves.
struct Record<'a> {
    player1: &'a str,
    player2: &'a str,
    pub winner: Winner,
    move_history: Vec<CellCoord>,
}

/// Whose turn it is, or that the game is over.
#[derive(Debug, PartialEq, Eq, Copy, Clone, Structural)]
pub enum GameState {
    Player1Turn,
    Player2Turn,
    Done,
}

/// Whose turn follows a move with the given outcome: nobody's after a win or
/// a tie, else the other player's.
pub open spec fn next_state(outcome: BoardState, by_player1: bool) -> GameState {
    match outcome {
        BoardState::Win => GameState::Done,
        BoardState::Tie => GameState::Done,
        BoardState::Playing => if by_player1 {
            GameState::Player2Turn
        } else {
            GameState::Player1Turn
        },
    }
}

/// The winner on record after a move with the given outcome: the mover after
/// a win, nobody after a tie, else who was on record before.
pub open spec fn next_winner(outcome: BoardState, by_player1: bool, before: Winner) -> Winner {
    match outcome {
        BoardState::Win => if by_player1 {
            Winner::Player1
        } else {
            Winner::Player2
        },
        BoardState::Tie => Winner::Nobody,
        BoardState::Playing => before,
    }
}

/// The line of the game history for the move at place `index`: its number
/// counted from one, the marker that moved (X moves first), and the cell.
pub open spec fn history_line(index: int, coord: CellCoord) -> (usize, Marker, CellCoord) {
    (
        (index + 1) as usize,
        if (index + 1) % 2 == 1 {
            Marker::X
        } else {
            Marker::O
        },
        coord,
    )
}

impl<'a> Game<'a> {
    /// The board of the game.
    pub closed spec fn board(&self) -> Board {
        self.board
    }

    /// Whose turn it is.
    pub closed spec fn state(&self) -> GameState {
        self.state
    }

    /// The winner on record.
    pub closed spec fn winner(&self) -> Winner {
        self.record.winner
    }

    /// The moves made, in their order.
    pub closed spec fn history(&self) -> Seq<CellCoord> {
        self.record.move_history@
    }

    /// The names on the record: the first player's, then the second's.
    pub closed spec fn names(&self) -> (&'a str, &'a str) {
        (self.record.player1, self.record.player2)
    }

    /// The marker of the human.
    pub closed spec fn mark1(&self) -> Marker {
        self.player1.marker
    }

    /// The computer player.
    pub closed spec fn computer(&self) -> Computer<'a> {
        self.player2
    }

    /// The marker of the computer player.
    pub closed spec fn mark2(&self) -> Marker {
        self.player2.mark()
    }

    /// Whether the computer player can answer on the grid.
    pub closed spec fn computer_ready(&self, g: Grid) -> bool {
        self.player2.ready(g)
    }

    /// The board is consistent, a game that goes on has an empty cell, every
    /// placement is on record, and the computer player can answer on every
    /// grid that the board can still become.
    pub open spec fn wf(&self) -> bool {
        &&& self.board().wf()
        &&& self.state() != GameState::Done ==> marker_count(self.board()@) < 9
        &&& self.history().len() == marker_count(self.board()@)
        &&& forall|later: Grid|
            fills(self.board()@, later) ==> #[trigger] self.computer_ready(later)
    }

    /// A game on an empty board; the human moves first.
    pub fn new(player1: Human<'a>, player2: Computer<'a>) -> (game: Game<'a>)
        requires
            forall|g: Grid| grid_wf(g) ==> #[trigger] player2.ready(g),
        ensures
            game.wf(),
            game.board()@ == empty_grid(),
            game.state() == GameState::Player1Turn,
            game.winner() == Winner::Nobody,
            game.history() == Seq::<CellCoord>::empty(),
            game.mark1() == player1.marker,
            game.mark2() == player2.mark(),
            game.computer() == player2,
            game.names() == ("steph", "mike"),
    {
        Game {
            player1,
            player2,
            board: Board::new(),
            // The names on the record are fixed.
            record: Record::new("steph", "mike"),
            state: GameState::Player1Turn,
        }
    }

    /// Lets the computer player move where it is its turn.
    pub fn run(&mut self) -> (state: GameState)
        requires
            old(self).wf(),
        ensures
            final(self).wf(),
            state == final(self).state(),
            final(self).mark1() == old(self).mark1(),
            final(self).mark2() == old(self).mark2(),
            final(self).names() == old(self).names(),
            old(self).state() != GameState::Player2Turn ==> {
                &&& final(self).board() == old(self).board()
                &&& final(self).state() == old(self).state()
                &&& final(self).winner() == old(self).winner()
                &&& final(self).history() == old(self).history()
            },
            old(self).state() == GameState::Player2Turn ==> {
                let coord = final(self).history().last();
                let outcome = evaluate(final(self).board()@, coord, old(self).mark2());
                &&& final(self).history() == old(self).history().push(coord)
                &&& coord.wf()
                &&& validate(old(self).board()@, coord) == Move::Valid
                &&& final(self).board()@ == put(
                    old(self).board()@,
                    coord.row as int,
                    coord.column as int,
                    old(self).mark2().state(),
                )
                &&& final(self).state() == next_state(outcome, false)
                &&& final(self).winner() == next_winner(outcome, false, old(self).winner())
            },
    {
        match self.state {
            GameState::Player1Turn => GameState::Player1Turn,
            GameState::Player2Turn => {
                let ghost before = self.board@;
                proof {
                    assert(self.computer_ready(before));
                }
                let comp_move = self.player2.get_valid_move(&self.board);
                let marker = self.player2.get_marker();
                self.board.place_marker(comp_move, marker);
                self.record.record_move(comp_move);
                proof {
                    lemma_turn_taken(before, comp_move, marker);
                    assert forall|later: Grid| fills(self.board@, later) implies #[trigger] self.player2.ready(
                        later,
                    ) by {
                        lemma_fills_after_put(before, comp_move, marker, later);
                    }
                }
                match self.board.check_board_state(comp_move, marker) {
                    BoardState::Win => {
                        self.state = GameState::Done;
                        self.record.record_outcome(Winner::Player2);
                    },
                    BoardState::Tie => {
                        self.state = GameState::Done;
                        self.record.record_outcome(Winner::Nobody);
                    },
                    BoardState::Playing => {
                        self.state = GameState::Player1Turn;
                    },
                }
                self.state
            },
            GameState::Done => GameState::Done,
        }
    }

    /// Places the human's move where it is the human's turn and the move is
    /// valid; leaves the game as it is otherwise.
    pub fn make_human_move(&mut self, player_move: CellCoord) -> (state: GameState)
        requires
            old(self).wf(),
        ensures
            final(self).wf(),
            state == final(self).state(),
            final(self).mark1() == old(self).mark1(),
            final(self).mark2() == old(self).mark2(),
            final(self).names() == old(self).names(),
            old(self).state() == GameState::Player1Turn && validate(
                old(self).board()@,
                player_move,
            ) == Move::Valid ==> {
                let outcome = evaluate(final(self).board()@, player_move, old(self).mark1());
                &&& final(self).history() == old(self).history().push(player_move)
                &&& final(self).board()@ == put(
                    old(self).board()@,
                    player_move.row as int,
                    player_move.column as int,
                    old(self).mark1().state(),
                )
                &&& final(self).state() == next_state(outcome, true)
                &&& final(self).winner() == next_winner(outcome, true, old(self).winner())
            },
            !(old(self).state() == GameState::Player1Turn && validate(
                old(self).board()@,
                player_move,
            ) == Move::Valid) ==> {
                &&& final(self).board() == old(self).board()
                &&& final(self).state() == old(self).state()
                &&& final(self).winner() == old(self).winner()
                &&& final(self).history() == old(self).history()
            },
    {
        if self.state == GameState::Player1Turn {
            if self.board.validate_move(player_move) == Move::Valid {
                let ghost before = self.board@;
                let marker = self.player1.get_marker();
                self.board.place_marker(player_move, marker);
                self.record.record_move(player_move);
                proof {
                    lemma_turn_taken(before, player_move, marker);
                    assert forall|later: Grid| fills(self.board@, later) implies #[trigger] self.player2.ready(
                        later,
                    ) by {
                        lemma_fills_after_put(before, player_move, marker, later);
                        assert(old(self).computer_ready(later));
                    }
                }
                match self.board.check_board_state(player_move, marker) {
                    BoardState::Win => {
                        self.state = GameState::Done;
                        self.record.record_outcome(Winner::Player1);
                    },
                    BoardState::Tie => {
                        self.state = GameState::Done;
                        self.record.record_outcome(Winner::Nobody);
                    },
                    BoardState::Playing => {
                        self.state = GameState::Player2Turn;
                    },
                }
            }
        }
        self.state
    }

    /// The symbol of the cell with the given flat index, for display.
    pub fn get_cellstate_char(&self, cell_index: usize) -> (ch: char)
        requires
            cell_index < 9,
        ensures
            ch == symbol(cell(self.board()@, cell_index as int / 3, cell_index as int % 3)),
    {
        self.board.get_cellstate_char(cell_index)
    }

    /// Whose turn it is.
    pub fn get_game_state(&self) -> (state: GameState)
        ensures
            state == self.state(),
    {
        self.state
    }

    /// The winner on record.
    pub fn get_winner(&self) -> (winner: Winner)
        ensures
            winner == self.winner(),
    {
        self.record.winner
    }

    /// The board, for the queries that a turn of the human needs.
    pub fn get_board(&self) -> (board: &Board)
        ensures
            *board == self.board(),
    {
        &self.board
    }

    /// The human of the game.
    pub fn get_human(&self) -> (human: &Human<'a>)
        ensures
            human.marker == self.mark1(),
    {
        &self.player1
    }

    /// The names on the record: the first player's, then the second's.
    pub fn get_names(&self) -> (names: (&'a str, &'a str))
        ensures
            names == self.names(),
    {
        (self.record.player1, self.record.player2)
    }

    /// The history of the game, line by line.
    pub fn get_game_history(&self) -> (lines: Vec<(usize, Marker, CellCoord)>)
        ensures
            lines@.len() == self.history().len(),
            forall|i: int|
                0 <= i < lines@.len() ==> #[trigger] lines@[i] == history_line(i, self.history()[i]),
    {
        self.record.game_history()
    }

    /// Starts over on an empty board, against a new optimal computer that
    /// places O.
    pub fn reset(&mut self)
        ensures
            final(self).wf(),
            final(self).board()@ == empty_grid(),
            final(self).state() == GameState::Player1Turn,
            final(self).winner() == Winner::Nobody,
            final(self).history() == Seq::<CellCoord>::empty(),
            final(self).mark1() == old(self).mark1(),
            final(self).mark2() == Marker::O,
            final(self).computer() is Optimal,
            final(self).names() == ("steph", "mike"),
    {
        self.player2 = Computer::Optimal(OptimalAI::new("Optimal", Marker::O));
        self.board = Board::new();
        // The names on the record are fixed.
        self.record = Record::new("steph", "mike");
        self.state = GameState::Player1Turn;
    }
}

/// A valid placement marks one more cell, so a board that was not full has
/// made room for the count.
proof fn lemma_turn_taken(g: Grid, c: CellCoord, m: Marker)
    requires
        grid_wf(g),
        validate(g, c) == Move::Valid,
    ensures
        marker_count(put(g, c.row as int, c.column as int, m.state())) == marker_count(g) + 1,
{
    put_changes_one_cell(g, c, m.state());
}

/// What fills the grid after a placement also fills the grid before it, and
/// holds the placed cell marked.
proof fn lemma_fills_after_put(g: Grid, c: CellCoord, m: Marker, later: Grid)
    requires
        grid_wf(g),
        validate(g, c) == Move::Valid,
        fills(put(g, c.row as int, c.column as int, m.state()), later),
    ensures
        fills(g, later),
        !is_open(later, c),
{
    put_changes_one_cell(g, c, m.state());
}

impl<'a> Record<'a> {
    /// An empty record under the two names.
    fn new(player1: &'a str, player2: &'a str) -> (record: Record<'a>)
        ensures
            record.player1 == player1,
            record.player2 == player2,
            record.winner == Winner::Nobody,
            record.move_history@ == Seq::<CellCoord>::empty(),
    {
        Record { player1, player2, winner: Winner::Nobody, move_history: Vec::new() }
    }

    /// Puts the move on record.
    fn record_move(&mut self, player_move: CellCoord)
        ensures
            final(self).move_history@ == old(self).move_history@.push(player_move),
            final(self).winner == old(self).winner,
            final(self).player1 == old(self).player1,
            final(self).player2 == old(self).player2,
    {
        self.move_history.push(player_move);
    }

    /// Puts the winner on record.
    fn record_outcome(&mut self, winner: Winner)
        ensures
            final(self).winner == winner,
            final(self).move_history@ == old(self).move_history@,
            final(self).player1 == old(self).player1,
            final(self).player2 == old(self).player2,
    {
        self.winner = winner;
    }

    /// The moves on record, each with its number and the marker that moved.
    fn game_history(&self) -> (lines: Vec<(usize, Marker, CellCoord)>)
        ensures
            lines@.len() == self.move_history@.len(),
            forall|i: int|
                0 <= i < lines@.len() ==> #[trigger] lines@[i] == history_line(
                    i,
                    self.move_history@[i],
                ),
    {
        let mut lines: Vec<(usize, Marker, CellCoord)> = Vec::new();
        let mut index: usize = 0;
        while index < self.move_history.len()
            invariant
                index <= self.move_history.len(),
                lines@.len() == index,
                forall|i: int|
                    0 <= i < index ==> #[trigger] lines@[i] == history_line(
                        i,
                        self.move_history@[i],
                    ),
            decreases self.move_history.len() - index,
        {
            let coord = self.move_history[index];
            let line = match (index + 1) % 2 {
                1 => (index + 1, Marker::X, coord),
                _ => (index + 1, Marker::O, coord),
            };
            lines.push(line);
            index += 1;
        }
        lines
    }
}

} // verus!
