use miktactoe::board::{Board, BoardState};
use miktactoe::common::{CellCoord, Marker, Move};

#[test]
fn checks_row_win() {
    let marker = Marker::X;
    let mut board = Board::new();
    board.place_marker(CellCoord::new(0, 0), marker);
    board.place_marker(CellCoord::new(0, 1), marker);
    board.place_marker(CellCoord::new(0, 2), marker);
    assert_eq!(
        board.check_board_state(CellCoord::new(0, 2), marker),
        BoardState::Win
    );
}

#[test]
fn checks_column_win() {
    let marker = Marker::X;
    let mut board = Board::new();
    board.place_marker(CellCoord::new(0, 0), marker);
    board.place_marker(CellCoord::new(1, 0), marker);
    board.place_marker(CellCoord::new(2, 0), marker);
    assert_eq!(
        board.check_board_state(CellCoord::new(2, 0), marker),
        BoardState::Win
    );
}

#[test]
fn checks_row_not_win() {
    let mut board = Board::new();
    board.place_marker(CellCoord::new(0, 0), Marker::X);
    assert_eq!(
        board.check_board_state(CellCoord::new(0, 0), Marker::X),
        BoardState::Playing
    );
    board.place_marker(CellCoord::new(0, 1), Marker::X);
    assert_eq!(
        board.check_board_state(CellCoord::new(0, 1), Marker::X),
        BoardState::Playing
    );
    board.place_marker(CellCoord::new(0, 2), Marker::O);
    assert_eq!(
        board.check_board_state(CellCoord::new(0, 2), Marker::O),
        BoardState::Playing
    );
}

#[test]
fn checks_column_not_win() {
    let mut board = Board::new();
    board.place_marker(CellCoord::new(0, 0), Marker::X);
    assert_eq!(
        board.check_board_state(CellCoord::new(0, 0), Marker::X),
        BoardState::Playing
    );
    board.place_marker(CellCoord::new(1, 0), Marker::X);
    assert_eq!(
        board.check_board_state(CellCoord::new(1, 0), Marker::X),
        BoardState::Playing
    );
    board.place_marker(CellCoord::new(2, 0), Marker::O);
    assert_eq!(
        board.check_board_state(CellCoord::new(2, 0), Marker::O),
        BoardState::Playing
    );
}

#[test]
fn checks_diag_win() {
    let marker = Marker::X;
    let mut board = Board::new();
    board.place_marker(CellCoord::new(0, 0), marker);
    assert_eq!(
        board.check_board_state(CellCoord::new(0, 0), marker),
        BoardState::Playing
    );
    board.place_marker(CellCoord::new(1, 1), marker);
    assert_eq!(
        board.check_board_state(CellCoord::new(1, 1), marker),
        BoardState::Playing
    );
    board.place_marker(CellCoord::new(2, 2), marker);
    assert_eq!(
        board.check_board_state(CellCoord::new(2, 2), marker),
        BoardState::Win
    );

    let mut board = Board::new();
    board.place_marker(CellCoord::new(0, 2), marker);
    assert_eq!(
        board.check_board_state(CellCoord::new(0, 2), marker),
        BoardState::Playing
    );
    board.place_marker(CellCoord::new(1, 1), marker);
    assert_eq!(
        board.check_board_state(CellCoord::new(1, 1), marker),
        BoardState::Playing
    );
    board.place_marker(CellCoord::new(2, 0), marker);
    assert_eq!(
        board.check_board_state(CellCoord::new(2, 0), marker),
        BoardState::Win
    );
}

#[test]
fn checks_tie() {
    let mut board = Board::new();
    board.place_marker(CellCoord::new(0, 0), Marker::X);
    board.place_marker(CellCoord::new(0, 1), Marker::X);
    board.place_marker(CellCoord::new(0, 2), Marker::O);
    board.place_marker(CellCoord::new(1, 0), Marker::O);
    board.place_marker(CellCoord::new(1, 1), Marker::O);
    board.place_marker(CellCoord::new(1, 2), Marker::X);
    board.place_marker(CellCoord::new(2, 0), Marker::X);
    board.place_marker(CellCoord::new(2, 1), Marker::X);
    board.place_marker(CellCoord::new(2, 2), Marker::O);
    assert_eq!(
        board.check_board_state(CellCoord::new(2, 2), Marker::O),
        BoardState::Tie
    );
}

#[test]
fn validates_move_to_used_cell() {
    let marker = Marker::X;
    let mut board = Board::new();
    let move_type = board.validate_move(CellCoord::new(0, 0));
    assert_eq!(move_type, Move::Valid);

    board.place_marker(CellCoord::new(0, 0), marker);
    let move_type = board.validate_move(CellCoord::new(0, 0));
    assert_eq!(move_type, Move::AlreadyUsed);
}

#[test]
fn validates_out_of_bounds_move() {
    let board = Board::new();
    let move_type = board.validate_move(CellCoord::new(3, 0));
    assert_eq!(move_type, Move::OutOfBounds);
    let move_type = board.validate_move(CellCoord::new(1, 3));
    assert_eq!(move_type, Move::OutOfBounds);
}

#[test]
fn gets_winning_move_column() {
    let mut board = Board::new();
    board.place_marker(CellCoord::new(0, 0), Marker::X);
    board.place_marker(CellCoord::new(1, 0), Marker::X);
    let winning_move = board.get_winning_move(Marker::X);
    assert_eq!(winning_move, Some(CellCoord::new(2, 0)));
}

#[test]
fn gets_winning_move_row() {
    let mut board = Board::new();
    board.place_marker(CellCoord::new(0, 0), Marker::X);
    board.place_marker(CellCoord::new(0, 1), Marker::X);
    let winning_move = board.get_winning_move(Marker::X);
    assert_eq!(winning_move, Some(CellCoord::new(0, 2)));
}

#[test]
fn gets_winning_move_diag() {
    let mut board = Board::new();
    board.place_marker(CellCoord::new(0, 0), Marker::X);
    board.place_marker(CellCoord::new(1, 1), Marker::X);
    let winning_move = board.get_winning_move(Marker::X);
    assert_eq!(winning_move, Some(CellCoord::new(2, 2)));
}

#[test]
fn gets_winning_move_none() {
    let mut board = Board::new();
    board.place_marker(CellCoord::new(0, 0), Marker::X);
    board.place_marker(CellCoord::new(2, 1), Marker::X);
    let winning_move = board.get_winning_move(Marker::X);
    assert_eq!(winning_move, None);
}

#[test]
fn gets_forking_move() {
    let mut board = Board::new();
    board.place_marker(CellCoord::new(0, 0), Marker::X);
    board.place_marker(CellCoord::new(2, 2), Marker::X);
    let mut forking_moves = board.get_forking_move(Marker::X);
    forking_moves.sort();
    assert_eq!(forking_moves.len(), 2);
    assert_eq!(forking_moves[0], CellCoord::new(0, 2));
    assert_eq!(forking_moves[1], CellCoord::new(2, 0));
}

#[test]
fn gets_corner_moves() {
    let mut board = Board::new();
    let mut corners = Vec::new();
    while let Some(coord) = board.get_corner_move() {
        corners.push(coord);
        board.place_marker(coord, Marker::X);
    }
    corners.sort();
    assert_eq!(corners.len(), 4);
    assert_eq!(
        corners,
        vec![
            CellCoord::new(0, 0),
            CellCoord::new(0, 2),
            CellCoord::new(2, 0),
            CellCoord::new(2, 2)
        ]
    );
}

#[test]
fn gets_edge_moves() {
    let mut board = Board::new();
    let mut edges = Vec::new();
    while let Some(coord) = board.get_edge_move() {
        edges.push(coord);
        board.place_marker(coord, Marker::X);
    }
    edges.sort();
    assert_eq!(edges.len(), 4);
    assert_eq!(
        edges,
        vec![
            CellCoord::new(0, 1),
            CellCoord::new(1, 0),
            CellCoord::new(1, 2),
            CellCoord::new(2, 1)
        ]
    );
}
