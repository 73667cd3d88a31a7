use miktactoe::board::Board;
use miktactoe::common::{CellCoord, CellType, Marker, Move};
use miktactoe::player::ai_basic::BasicAI;
use miktactoe::player::ai_forking::ForkingAI;
use miktactoe::player::ai_optimal::OptimalAI;
use miktactoe::player::ai_random::RandomAI;
use miktactoe::player::human::Human;
use miktactoe::player::random_computer::RandomComputer;
use miktactoe::player::{draw_valid_move, shuffled_moves, Computer, Player};

fn board_with(xs: &[(usize, usize)], os: &[(usize, usize)]) -> Board {
    let mut board = Board::new();
    for &(r, c) in xs {
        board.place_marker(CellCoord::new(r, c), Marker::X);
    }
    for &(r, c) in os {
        board.place_marker(CellCoord::new(r, c), Marker::O);
    }
    board
}

fn all_cells() -> Vec<CellCoord> {
    let mut cells = Vec::new();
    for row in 0..3 {
        for column in 0..3 {
            cells.push(CellCoord::new(row, column));
        }
    }
    cells
}

#[test]
fn shuffled_moves_hold_every_cell_once() {
    for _ in 0..20 {
        let mut moves = shuffled_moves();
        moves.sort();
        assert_eq!(moves, all_cells());
    }
}

#[test]
fn shuffling_changes_the_order_sometimes() {
    let mut changed = false;
    for _ in 0..40 {
        if shuffled_moves() != all_cells() {
            changed = true;
        }
    }
    assert!(changed);
}

#[test]
fn drawing_skips_marked_cells() {
    let board = board_with(&[(2, 2), (2, 1)], &[(2, 0)]);
    let mut stock = all_cells();
    let coord = draw_valid_move(&mut stock, &board);
    assert_eq!(coord, CellCoord::new(1, 2));
    assert_eq!(stock, all_cells()[..5].to_vec());
}

#[test]
fn random_player_fills_the_board_with_valid_moves() {
    let mut board = Board::new();
    let mut player = RandomAI::new("Random", Marker::O);
    assert_eq!(player.get_name(), "Random");
    assert_eq!(player.get_marker(), Marker::O);
    let mut seen = Vec::new();
    for _ in 0..9 {
        let coord = player.get_valid_move(&board);
        assert_eq!(board.validate_move(coord), Move::Valid);
        board.place_marker(coord, Marker::O);
        seen.push(coord);
    }
    seen.sort();
    assert_eq!(seen, all_cells());
}

#[test]
fn random_player_built_through_the_trait() {
    let mut player: RandomAI = Player::new("Dice", Marker::X);
    assert_eq!(player.get_name(), "Dice");
    assert_eq!(player.get_marker(), Marker::X);
    let board = board_with(&[(0, 0)], &[(1, 1)]);
    let coord = player.get_valid_move(&board);
    assert_eq!(board.validate_move(coord), Move::Valid);
}

#[test]
fn basic_player_wins_before_it_blocks() {
    let board = board_with(&[(0, 0), (0, 1)], &[(1, 0), (1, 1)]);
    let mut x = BasicAI::new("Basic", Marker::X);
    assert_eq!(x.get_valid_move(&board), CellCoord::new(0, 2));
    let mut o = BasicAI::new("Basic", Marker::O);
    assert_eq!(o.get_valid_move(&board), CellCoord::new(1, 2));
}

#[test]
fn basic_player_blocks() {
    let board = board_with(&[(0, 0), (0, 1)], &[(2, 2)]);
    let mut o = BasicAI::new("Basic", Marker::O);
    assert_eq!(o.get_valid_move(&board), CellCoord::new(0, 2));
    assert_eq!(o.get_name(), "Basic");
    assert_eq!(o.get_marker(), Marker::O);
}

#[test]
fn basic_player_moves_validly_otherwise() {
    for _ in 0..20 {
        let board = board_with(&[(1, 1)], &[]);
        let mut o = BasicAI::new("Basic", Marker::O);
        let coord = o.get_valid_move(&board);
        assert_eq!(board.validate_move(coord), Move::Valid);
    }
}

#[test]
fn forking_player_makes_a_fork() {
    let board = board_with(&[(0, 0), (2, 2)], &[(1, 1)]);
    let mut x: ForkingAI = Player::new("Forking", Marker::X);
    let coord = x.get_valid_move(&board);
    assert!(coord == CellCoord::new(0, 2) || coord == CellCoord::new(2, 0));
    assert_eq!(x.get_marker(), Marker::X);
    assert_eq!(x.get_name(), "Forking");
}

#[test]
fn forking_player_takes_the_opponents_fork() {
    let board = board_with(&[(0, 0), (2, 2)], &[(1, 1)]);
    let mut o: ForkingAI = Player::new("Forking", Marker::O);
    let coord = o.get_valid_move(&board);
    assert!(coord == CellCoord::new(0, 2) || coord == CellCoord::new(2, 0));
}

#[test]
fn forking_player_wins_first() {
    let board = board_with(&[(0, 0), (1, 1)], &[(0, 1), (0, 2)]);
    let mut x: ForkingAI = Player::new("Forking", Marker::X);
    assert_eq!(x.get_valid_move(&board), CellCoord::new(2, 2));
}

#[test]
fn optimal_player_opens_in_the_center() {
    let board = Board::new();
    let mut o = OptimalAI::new("Optimal", Marker::O);
    assert_eq!(o.get_valid_move(&board), CellCoord::new(1, 1));
    assert_eq!(o.get_name(), "Optimal");
    assert_eq!(o.get_marker(), Marker::O);
}

#[test]
fn optimal_player_answers_the_center_with_a_corner() {
    for _ in 0..20 {
        let board = board_with(&[(1, 1)], &[]);
        let mut o = OptimalAI::new("Optimal", Marker::O);
        let coord = o.get_valid_move(&board);
        assert_eq!(coord.get_cell_type(), CellType::Corner);
    }
}

#[test]
fn optimal_player_wins_blocks_and_forks() {
    let mut x = OptimalAI::new("Optimal", Marker::X);
    let win = board_with(&[(2, 0), (2, 1)], &[(0, 0), (0, 1)]);
    assert_eq!(x.get_valid_move(&win), CellCoord::new(2, 2));
    let block = board_with(&[(1, 1)], &[(0, 0), (0, 1)]);
    assert_eq!(x.get_valid_move(&block), CellCoord::new(0, 2));
    let fork = board_with(&[(0, 0), (2, 2)], &[(1, 1)]);
    let coord = x.get_valid_move(&fork);
    assert!(coord == CellCoord::new(0, 2) || coord == CellCoord::new(2, 0));
}

#[test]
fn optimal_player_takes_the_only_fork_of_the_opponent() {
    // X stands on (0, 1) and (1, 0); O on the center. X forks in (0, 0) only.
    let board = board_with(&[(0, 1), (1, 0)], &[(1, 1)]);
    assert_eq!(board.get_forking_move(Marker::X), vec![CellCoord::new(0, 0)]);
    let mut o = OptimalAI::new("Optimal", Marker::O);
    assert_eq!(o.get_valid_move(&board), CellCoord::new(0, 0));
}

#[test]
fn optimal_player_forces_a_defence_that_is_no_fork() {
    // O stands on (0, 0); X on (1, 1) and (2, 2) forks in four cells.
    let board = board_with(&[(1, 1), (2, 2)], &[(0, 0)]);
    assert_eq!(board.get_forking_move(Marker::X).len(), 4);
    let mut o = OptimalAI::new("Optimal", Marker::O);
    assert_eq!(o.get_valid_move(&board), CellCoord::new(0, 2));
}

#[test]
fn optimal_player_falls_back_to_an_edge() {
    // Center and corners are taken, nothing is to win or to fork.
    let board = board_with(&[(0, 0), (2, 2), (1, 2), (0, 1)], &[(1, 1), (0, 2), (2, 0), (1, 0)]);
    let mut x = OptimalAI::new("Optimal", Marker::X);
    assert_eq!(x.get_valid_move(&board), CellCoord::new(2, 1));
}

#[test]
fn computer_dispatches_to_its_player() {
    let board = board_with(&[(0, 0), (0, 1)], &[(2, 2)]);
    let mut players = vec![
        Computer::Basic(BasicAI::new("Basic", Marker::O)),
        Computer::Forking(Player::new("Forking", Marker::O)),
        Computer::Optimal(OptimalAI::new("Optimal", Marker::O)),
    ];
    for player in players.iter_mut() {
        assert_eq!(player.get_marker(), Marker::O);
        assert_eq!(player.get_valid_move(&board), CellCoord::new(0, 2));
    }
    assert_eq!(players[0].get_name(), "Basic");
    assert_eq!(players[1].get_name(), "Forking");
    assert_eq!(players[2].get_name(), "Optimal");
    let mut random = Computer::Random(RandomAI::new("Random", Marker::X));
    assert_eq!(random.get_name(), "Random");
    assert_eq!(random.get_marker(), Marker::X);
    assert_eq!(board.validate_move(random.get_valid_move(&board)), Move::Valid);
}

#[test]
fn random_computer_plays_every_cell_once() {
    let mut computer = RandomComputer::new(String::from("Computer"), Marker::O);
    assert_eq!(computer.name, "Computer");
    assert_eq!(computer.marker, Marker::O);
    let mut moves = Vec::new();
    for _ in 0..9 {
        moves.push(computer.get_move());
    }
    moves.sort();
    assert_eq!(moves, all_cells());
}

#[test]
fn human_move_is_judged() {
    let board = board_with(&[(0, 0)], &[]);
    let human = Human::new("Human", Marker::O);
    assert_eq!(human.get_name(), "Human");
    assert_eq!(human.get_marker(), Marker::O);
    assert_eq!(human.get_valid_move(&board, 1, 2), Ok(CellCoord::new(1, 2)));
    assert_eq!(human.get_valid_move(&board, 0, 0), Err(Move::AlreadyUsed));
    assert_eq!(human.get_valid_move(&board, 3, 0), Err(Move::OutOfBounds));
    assert_eq!(human.get_valid_move(&board, 0, 3), Err(Move::OutOfBounds));
    assert_eq!(
        human.get_valid_move(&board, usize::MAX, usize::MAX),
        Err(Move::OutOfBounds)
    );
}
