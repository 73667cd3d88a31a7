//! The state of the program behind its screens: the menus, the cell that the
//! cursor is on, and the game. Drawing the screens and reading the keys is
//! left to the program.

use vstd::prelude::*;
use crate::common::{CellCoord, Marker};
use crate::game::{Game, GameState, Winner};
use crate::grid::empty_grid;
use crate::menu::{EndMenuEntry, MainMenuEntry, MenuList, PlayerTypeEntry};
use crate::player::ai_basic::BasicAI;
use crate::player::ai_optimal::OptimalAI;
use crate::player::ai_random::RandomAI;
use crate::player::human::Human;
use crate::player::Computer;

verus! {

/// The keys that move the cursor over the board.
#[derive(Debug, PartialEq, Eq, Copy, Clone, Structural)]
pub enum Key {
    Right,
    Left,
    Down,
    Up,
    Other,
}

/// The state of the program.
pub struct App<'a> {
    pub main_menu: MenuList<MainMenuEntry>,
    pub player_select_menu: MenuList<PlayerTypeEntry>,
    pub end_menu: MenuList<EndMenuEntry>,
    pub selected_cell: u8,
    pub game: Game<'a>,
}

/// Where a key takes the cursor from the cell with the given flat index: one
/// cell in the key's direction, and nowhere at the rim of the board.
pub open spec fn moved(cell: u8, key: Key) -> u8 {
    match key {
        Key::Right => if cell != 2 && cell != 5 && cell != 8 {
            (cell + 1) as u8
        } else {
            cell
        },
        Key::Left => if cell != 0 && cell != 3 && cell != 6 {
            (cell - 1) as u8
        } else {
            cell
        },
        Key::Down => if cell < 6 {
            (cell + 3) as u8
        } else {
            cell
        },
        Key::Up => if cell > 2 {
            (cell - 3) as u8
        } else {
            cell
        },
        Key::Other => cell,
    }
}

/// The computer player that an entry of the opponent menu stands for.
pub open spec fn stands_for(entry: PlayerTypeEntry, player: Computer) -> bool {
    match entry {
        PlayerTypeEntry::Human => false,
        PlayerTypeEntry::RandomComp => player is Random,
        PlayerTypeEntry::BasicComp => player is Basic,
        PlayerTypeEntry::OptimalComp => player is Optimal,
    }
}

impl<'a> App<'a> {
    /// The menus are in order, the cursor is on the board, and the game is
    /// consistent.
    pub open spec fn wf(&self) -> bool {
        &&& self.main_menu.wf()
        &&& self.player_select_menu.wf()
        &&& self.end_menu.wf()
        &&& self.selected_cell < 9
        &&& self.game.wf()
    }

    /// The state at the start of the program.
    pub fn new() -> (app: App<'a>)
        ensures
            app.wf(),
            app.main_menu.items@ == seq![MainMenuEntry::Play, MainMenuEntry::Exit],
            app.player_select_menu.items@ == seq![
                PlayerTypeEntry::Human,
                PlayerTypeEntry::RandomComp,
                PlayerTypeEntry::BasicComp,
                PlayerTypeEntry::OptimalComp,
            ],
            app.end_menu.items@ == seq![EndMenuEntry::PlayAgain, EndMenuEntry::Exit],
            app.main_menu.selected == Some(0usize),
            app.player_select_menu.selected == Some(0usize),
            app.end_menu.selected == Some(0usize),
            app.selected_cell == 0,
            app.game.board()@ == empty_grid(),
            app.game.state() == GameState::Player1Turn,
            app.game.mark1() == Marker::X,
            app.game.mark2() == Marker::O,
    {
        App {
            main_menu: MenuList::with_items(vec![MainMenuEntry::Play, MainMenuEntry::Exit]),
            player_select_menu: MenuList::with_items(
                vec![
                    PlayerTypeEntry::Human,
                    PlayerTypeEntry::RandomComp,
                    PlayerTypeEntry::BasicComp,
                    PlayerTypeEntry::OptimalComp,
                ],
            ),
            end_menu: MenuList::with_items(vec![EndMenuEntry::PlayAgain, EndMenuEntry::Exit]),
            selected_cell: 0,
            // The user has not selected an opponent yet when the program
            // starts, so the game starts out against the optimal computer.
            game: Game::new(
                Human::new("Human", Marker::X),
                Computer::Optimal(OptimalAI::new("Optimal", Marker::O)),
            ),
        }
    }

    /// The selected entry of the main menu; the exit where none is selected.
    pub fn handle_main_menu_enter(&self) -> (entry: MainMenuEntry)
        requires
            self.main_menu.wf(),
        ensures
            entry == match self.main_menu.selected {
                Some(i) => self.main_menu.items@[i as int],
                None => MainMenuEntry::Exit,
            },
    {
        match self.main_menu.selected {
            Some(i) => self.main_menu.items[i],
            None => MainMenuEntry::Exit,
        }
    }

    /// Sets up the game against the selected opponent. A game of two humans
    /// is not on offer, so that entry must not be the selected one.
    pub fn handle_player_select_menu_enter(&mut self)
        requires
            old(self).wf(),
            old(self).player_select_menu.selected matches Some(i) ==> old(
                self,
            ).player_select_menu.items@[i as int] != PlayerTypeEntry::Human,
        ensures
            final(self).wf(),
            final(self).main_menu == old(self).main_menu,
            final(self).player_select_menu == old(self).player_select_menu,
            final(self).end_menu == old(self).end_menu,
            final(self).selected_cell == old(self).selected_cell,
            old(self).player_select_menu.selected is None ==> final(self).game == old(self).game,
            old(self).player_select_menu.selected matches Some(i) ==> {
                &&& stands_for(
                    old(self).player_select_menu.items@[i as int],
                    final(self).game.computer(),
                )
                &&& final(self).game.board()@ == empty_grid()
                &&& final(self).game.state() == GameState::Player1Turn
                &&& final(self).game.winner() == Winner::Nobody
                &&& final(self).game.history() == Seq::<CellCoord>::empty()
                &&& final(self).game.mark1() == Marker::X
                &&& final(self).game.mark2() == Marker::O
            },
    {
        match self.player_select_menu.selected {
            Some(i) => match self.player_select_menu.items[i] {
                PlayerTypeEntry::Human => {},
                PlayerTypeEntry::RandomComp => {
                    self.game = Game::new(
                        Human::new("Human", Marker::X),
                        Computer::Random(RandomAI::new("Random", Marker::O)),
                    );
                },
                PlayerTypeEntry::BasicComp => {
                    self.game = Game::new(
                        Human::new("Human", Marker::X),
                        Computer::Basic(BasicAI::new("Basic", Marker::O)),
                    );
                },
                PlayerTypeEntry::OptimalComp => {
                    self.game = Game::new(
                        Human::new("Human", Marker::X),
                        Computer::Optimal(OptimalAI::new("Optimal", Marker::O)),
                    );
                },
            },
            None => {},
        };
    }

    /// The selected entry of the end menu; the exit where none is selected.
    pub fn handle_end_menu_enter(&self) -> (entry: EndMenuEntry)
        requires
            self.end_menu.wf(),
        ensures
            entry == match self.end_menu.selected {
                Some(i) => self.end_menu.items@[i as int],
                None => EndMenuEntry::Exit,
            },
    {
        match self.end_menu.selected {
            Some(i) => self.end_menu.items[i],
            None => EndMenuEntry::Exit,
        }
    }

    /// Moves the cursor by one cell in the direction of the key.
    pub fn update_selected_cell(&mut self, key: &Key)
        requires
            old(self).selected_cell < 9,
        ensures
            final(self).selected_cell == moved(old(self).selected_cell, *key),
            final(self).selected_cell < 9,
            final(self).main_menu == old(self).main_menu,
            final(self).player_select_menu == old(self).player_select_menu,
            final(self).end_menu == old(self).end_menu,
            final(self).game == old(self).game,
    {
        match key {
            Key::Right => {
                if self.selected_cell != 2 && self.selected_cell != 5 && self.selected_cell != 8 {
                    self.selected_cell += 1;
                }
            },
            Key::Left => {
                if self.selected_cell != 0 && self.selected_cell != 3 && self.selected_cell != 6 {
                    self.selected_cell -= 1;
                }
            },
            Key::Down => {
                if self.selected_cell < 6 {
                    self.selected_cell += 3;
                }
            },
            Key::Up => {
                if self.selected_cell > 2 {
                    self.selected_cell -= 3;
                }
            },
            Key::Other => {},
        }
    }

    /// The coordinate of the cell that the cursor is on.
    pub fn selected_coord(&self) -> (coord: CellCoord)
        requires
            self.selected_cell < 9,
        ensures
            coord == CellCoord::at(self.selected_cell as int / 3, self.selected_cell as int % 3),
            coord.wf(),
            coord.index == self.selected_cell,
    {
        CellCoord::new((self.selected_cell / 3) as usize, (self.selected_cell % 3) as usize)
    }

    /// Starts the game over.
    pub fn restart_game(&mut self)
        requires
            old(self).wf(),
        ensures
            final(self).wf(),
            final(self).game.board()@ == empty_grid(),
            final(self).game.state() == GameState::Player1Turn,
            final(self).game.winner() == Winner::Nobody,
            final(self).main_menu == old(self).main_menu,
            final(self).player_select_menu == old(self).player_select_menu,
            final(self).end_menu == old(self).end_menu,
            final(self).selected_cell == old(self).selected_cell,
    {
        self.game.reset();
    }
}

} // verus!
