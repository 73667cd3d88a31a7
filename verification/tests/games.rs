use miktactoe::common::{CellCoord, Marker, Move};
use miktactoe::game::{Game, GameState, Winner};
use miktactoe::menu::{EndMenuEntry, MainMenuEntry, MenuList, PlayerTypeEntry};
use miktactoe::player::ai_basic::BasicAI;
use miktactoe::player::ai_optimal::OptimalAI;
use miktactoe::player::ai_random::RandomAI;
use miktactoe::player::human::Human;
use miktactoe::player::Computer;
use miktactoe::ui::{App, Key};

fn optimal_game<'a>() -> Game<'a> {
    Game::new(
        Human::new("Human", Marker::X),
        Computer::Optimal(OptimalAI::new("Optimal", Marker::O)),
    )
}

#[test]
fn new_game_waits_for_the_human() {
    let game = optimal_game();
    assert_eq!(game.get_game_state(), GameState::Player1Turn);
    assert_eq!(game.get_winner(), Winner::Nobody);
    assert_eq!(game.get_names(), ("steph", "mike"));
    assert_eq!(game.get_human().get_marker(), Marker::X);
    assert!(game.get_game_history().is_empty());
    for index in 0..9 {
        assert_eq!(game.get_cellstate_char(index), '_');
    }
}

#[test]
fn run_waits_while_it_is_the_humans_turn() {
    let mut game = optimal_game();
    assert_eq!(game.run(), GameState::Player1Turn);
    assert!(game.get_game_history().is_empty());
}

#[test]
fn invalid_human_moves_leave_the_game() {
    let mut game = optimal_game();
    assert_eq!(game.make_human_move(CellCoord::new(3, 0)), GameState::Player1Turn);
    assert_eq!(game.make_human_move(CellCoord::new(0, 0)), GameState::Player2Turn);
    // It is not the human's turn now.
    assert_eq!(game.make_human_move(CellCoord::new(0, 1)), GameState::Player2Turn);
    assert_eq!(game.get_cellstate_char(1), '_');
    assert_eq!(game.run(), GameState::Player1Turn);
    // The optimal computer answers a corner with the center.
    assert_eq!(game.get_cellstate_char(4), 'O');
    assert_eq!(game.make_human_move(CellCoord::new(1, 1)), GameState::Player1Turn);
    assert_eq!(game.make_human_move(CellCoord::new(0, 0)), GameState::Player1Turn);
    assert_eq!(game.get_game_history().len(), 2);
}

#[test]
fn history_numbers_the_moves_and_alternates_the_markers() {
    let mut game = optimal_game();
    game.make_human_move(CellCoord::new(0, 0));
    game.run();
    game.make_human_move(CellCoord::new(2, 2));
    let history = game.get_game_history();
    assert_eq!(history.len(), 3);
    assert_eq!(history[0], (1, Marker::X, CellCoord::new(0, 0)));
    assert_eq!(history[1], (2, Marker::O, CellCoord::new(1, 1)));
    assert_eq!(history[2], (3, Marker::X, CellCoord::new(2, 2)));
}

#[test]
fn careless_human_loses_to_the_optimal_computer() {
    let mut game = optimal_game();
    assert_eq!(game.make_human_move(CellCoord::new(0, 1)), GameState::Player2Turn);
    assert_eq!(game.run(), GameState::Player1Turn);
    assert_eq!(game.get_cellstate_char(4), 'O');
    let mut state = GameState::Player1Turn;
    let mut turns = 0;
    while state != GameState::Done {
        if state == GameState::Player1Turn {
            // The human takes the first empty cell, whatever it is.
            let board = game.get_board();
            let mut chosen = None;
            for index in 0..9 {
                let coord = CellCoord::new(index / 3, index % 3);
                if board.validate_move(coord) == Move::Valid {
                    chosen = Some(coord);
                    break;
                }
            }
            state = game.make_human_move(chosen.unwrap());
        } else {
            state = game.run();
        }
        turns += 1;
        assert!(turns <= 9);
    }
    assert_eq!(game.get_game_state(), GameState::Done);
    assert_eq!(game.get_winner(), Winner::Player2);
    assert_eq!(game.run(), GameState::Done);
    assert_eq!(game.make_human_move(CellCoord::new(2, 2)), GameState::Done);
}

#[test]
fn human_beats_a_computer_that_cannot_reach_the_line() {
    // Against the random computer the human goes for the top row and takes
    // whatever line is left when the computer gets in the way.
    for _ in 0..20 {
        let mut game = Game::new(
            Human::new("Human", Marker::X),
            Computer::Random(RandomAI::new("Random", Marker::O)),
        );
        let mut state = GameState::Player1Turn;
        while state != GameState::Done {
            if state == GameState::Player1Turn {
                let board = game.get_board();
                let coord = match board.get_winning_move(Marker::X) {
                    Some(coord) => coord,
                    None => {
                        let mut chosen = None;
                        for index in 0..9 {
                            let coord = CellCoord::new(index / 3, index % 3);
                            if board.validate_move(coord) == Move::Valid {
                                chosen = Some(coord);
                                break;
                            }
                        }
                        chosen.unwrap()
                    }
                };
                state = game.make_human_move(coord);
            } else {
                state = game.run();
            }
        }
        let history = game.get_game_history();
        assert!(history.len() >= 5 && history.len() <= 9);
        match game.get_winner() {
            Winner::Player1 => assert_eq!(history.len() % 2, 1),
            Winner::Player2 => assert_eq!(history.len() % 2, 0),
            Winner::Nobody => assert_eq!(history.len(), 9),
        }
    }
}

#[test]
fn basic_computer_blocks_in_a_game() {
    let mut game = Game::new(
        Human::new("Human", Marker::X),
        Computer::Basic(BasicAI::new("Basic", Marker::O)),
    );
    game.make_human_move(CellCoord::new(0, 0));
    game.run();
    if game.get_cellstate_char(1) == '_' && game.get_cellstate_char(2) == '_' {
        game.make_human_move(CellCoord::new(0, 1));
        assert_eq!(game.run(), GameState::Player1Turn);
        assert_eq!(game.get_cellstate_char(2), 'O');
    }
}

#[test]
fn reset_starts_over_against_the_optimal_computer() {
    let mut game = Game::new(
        Human::new("Human", Marker::X),
        Computer::Random(RandomAI::new("Random", Marker::X)),
    );
    game.make_human_move(CellCoord::new(0, 0));
    game.run();
    game.reset();
    assert_eq!(game.get_game_state(), GameState::Player1Turn);
    assert_eq!(game.get_winner(), Winner::Nobody);
    assert!(game.get_game_history().is_empty());
    for index in 0..9 {
        assert_eq!(game.get_cellstate_char(index), '_');
    }
    game.make_human_move(CellCoord::new(0, 0));
    game.run();
    assert_eq!(game.get_cellstate_char(4), 'O');
}

#[test]
fn menu_selection_wraps_around() {
    let mut menu = MenuList::with_items(vec!['a', 'b', 'c']);
    assert_eq!(menu.selected, Some(0));
    menu.next();
    assert_eq!(menu.selected, Some(1));
    menu.next();
    assert_eq!(menu.selected, Some(2));
    menu.next();
    assert_eq!(menu.selected, Some(0));
    menu.previous();
    assert_eq!(menu.selected, Some(2));
    menu.previous();
    assert_eq!(menu.selected, Some(1));
    menu.selected = None;
    menu.next();
    assert_eq!(menu.selected, Some(0));
    menu.selected = None;
    menu.previous();
    assert_eq!(menu.selected, Some(0));
    assert_eq!(menu.items, vec!['a', 'b', 'c']);
}

#[test]
fn menu_entries_have_their_labels() {
    assert_eq!(MainMenuEntry::Play.label(), "Play");
    assert_eq!(MainMenuEntry::Exit.label(), "Exit");
    assert_eq!(PlayerTypeEntry::Human.label(), "Human");
    assert_eq!(PlayerTypeEntry::RandomComp.label(), "Random Computer");
    assert_eq!(PlayerTypeEntry::BasicComp.label(), "Basic Computer");
    assert_eq!(PlayerTypeEntry::OptimalComp.label(), "Optimal Computer");
    assert_eq!(EndMenuEntry::PlayAgain.label(), "Play Again");
    assert_eq!(EndMenuEntry::Exit.label(), "Exit");
}

#[test]
fn app_starts_with_its_menus() {
    let app = App::new();
    assert_eq!(app.main_menu.items, vec![MainMenuEntry::Play, MainMenuEntry::Exit]);
    assert_eq!(
        app.player_select_menu.items,
        vec![
            PlayerTypeEntry::Human,
            PlayerTypeEntry::RandomComp,
            PlayerTypeEntry::BasicComp,
            PlayerTypeEntry::OptimalComp
        ]
    );
    assert_eq!(app.end_menu.items, vec![EndMenuEntry::PlayAgain, EndMenuEntry::Exit]);
    assert_eq!(app.selected_cell, 0);
    assert_eq!(app.handle_main_menu_enter(), MainMenuEntry::Play);
    assert_eq!(app.handle_end_menu_enter(), EndMenuEntry::PlayAgain);
    assert_eq!(app.game.get_game_state(), GameState::Player1Turn);
}

#[test]
fn menu_enter_follows_the_selection() {
    let mut app = App::new();
    app.main_menu.next();
    assert_eq!(app.handle_main_menu_enter(), MainMenuEntry::Exit);
    app.main_menu.selected = None;
    assert_eq!(app.handle_main_menu_enter(), MainMenuEntry::Exit);
    app.end_menu.previous();
    assert_eq!(app.handle_end_menu_enter(), EndMenuEntry::Exit);
    app.end_menu.selected = None;
    assert_eq!(app.handle_end_menu_enter(), EndMenuEntry::Exit);
}

#[test]
fn cursor_moves_and_stops_at_the_rim() {
    let mut app = App::new();
    let path = [
        (Key::Left, 0),
        (Key::Up, 0),
        (Key::Right, 1),
        (Key::Right, 2),
        (Key::Right, 2),
        (Key::Down, 5),
        (Key::Right, 5),
        (Key::Down, 8),
        (Key::Down, 8),
        (Key::Right, 8),
        (Key::Left, 7),
        (Key::Left, 6),
        (Key::Left, 6),
        (Key::Up, 3),
        (Key::Left, 3),
        (Key::Other, 3),
        (Key::Right, 4),
        (Key::Up, 1),
    ];
    for (key, cell) in path {
        app.update_selected_cell(&key);
        assert_eq!(app.selected_cell, cell);
    }
    assert_eq!(app.selected_coord(), CellCoord::new(0, 1));
    app.selected_cell = 5;
    assert_eq!(app.selected_coord(), CellCoord::new(1, 2));
}

#[test]
fn opponent_menu_sets_up_the_game() {
    let mut app = App::new();
    app.game.make_human_move(CellCoord::new(0, 0));
    app.player_select_menu.next();
    app.handle_player_select_menu_enter();
    assert_eq!(app.game.get_game_state(), GameState::Player1Turn);
    assert_eq!(app.game.get_cellstate_char(0), '_');
    app.player_select_menu.selected = None;
    app.game.make_human_move(CellCoord::new(0, 0));
    app.handle_player_select_menu_enter();
    assert_eq!(app.game.get_cellstate_char(0), 'X');
    app.player_select_menu.selected = Some(3);
    app.handle_player_select_menu_enter();
    app.game.make_human_move(CellCoord::new(0, 0));
    app.game.run();
    assert_eq!(app.game.get_cellstate_char(4), 'O');
}

#[test]
fn restart_clears_the_board() {
    let mut app = App::new();
    app.game.make_human_move(CellCoord::new(2, 2));
    app.selected_cell = 7;
    app.restart_game();
    assert_eq!(app.game.get_cellstate_char(8), '_');
    assert_eq!(app.game.get_game_state(), GameState::Player1Turn);
    assert_eq!(app.selected_cell, 7);
}
