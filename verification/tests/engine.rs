use miktactoe::board::{Board, BoardState, SetType};
use miktactoe::common::{CellCoord, CellType, Marker, Move};

fn coords(cells: &[(usize, usize)]) -> Vec<CellCoord> {
    cells.iter().map(|&(r, c)| CellCoord::new(r, c)).collect()
}

#[test]
fn coordinate_derives_index_and_class() {
    for row in 0..3 {
        for column in 0..3 {
            let coord = CellCoord::new(row, column);
            assert_eq!(coord.row, row);
            assert_eq!(coord.column, column);
            assert_eq!(coord.index, row * 3 + column);
        }
    }
    for (r, c) in [(0, 0), (0, 2), (2, 2), (2, 0)] {
        assert_eq!(CellCoord::new(r, c).get_cell_type(), CellType::Corner);
    }
    for (r, c) in [(0, 1), (1, 2), (2, 1), (1, 0)] {
        assert_eq!(CellCoord::new(r, c).get_cell_type(), CellType::Edge);
    }
    assert_eq!(CellCoord::new(1, 1).get_cell_type(), CellType::Center);
    assert_eq!(CellCoord::new(3, 0).get_cell_type(), CellType::Center);
}

#[test]
fn coordinates_order_by_row_then_column() {
    assert!(CellCoord::new(0, 2) < CellCoord::new(1, 0));
    assert!(CellCoord::new(1, 0) < CellCoord::new(1, 1));
    assert_eq!(CellCoord::new(2, 1), CellCoord::new(2, 1));
    assert_ne!(CellCoord::new(2, 1), CellCoord::new(1, 2));
}

#[test]
fn opposite_marker_swaps() {
    assert_eq!(Marker::opposite(Marker::X), Marker::O);
    assert_eq!(Marker::opposite(Marker::O), Marker::X);
}

#[test]
fn new_board_is_empty() {
    let board = Board::new();
    for index in 0..9 {
        assert_eq!(board.get_cellstate_char(index), '_');
    }
    assert_eq!(board.get_winning_move(Marker::X), None);
    assert_eq!(board.get_winning_move(Marker::O), None);
    assert!(board.get_forking_move(Marker::X).is_empty());
    assert!(board.get_single_marker_sets(Marker::O).is_empty());
    assert_eq!(board.get_corner_moves().len(), 4);
    assert_eq!(board.get_edge_moves().len(), 4);
}

#[test]
fn cell_symbols_follow_the_flat_index() {
    let mut board = Board::new();
    board.place_marker(CellCoord::new(0, 1), Marker::X);
    board.place_marker(CellCoord::new(2, 0), Marker::O);
    assert_eq!(board.get_cellstate_char(1), 'X');
    assert_eq!(board.get_cellstate_char(6), 'O');
    assert_eq!(board.get_cellstate_char(0), '_');
    assert_eq!(board.get_cellstate_char(8), '_');
}

#[test]
fn placing_on_a_marked_cell_changes_nothing() {
    let mut board = Board::new();
    board.place_marker(CellCoord::new(0, 0), Marker::X);
    board.place_marker(CellCoord::new(0, 0), Marker::O);
    assert_eq!(board.get_cellstate_char(0), 'X');
    // The count went up once only: eight more placements fill the board.
    for (r, c) in [(0, 1), (0, 2), (1, 0), (1, 1), (1, 2), (2, 0), (2, 1)] {
        board.place_marker(CellCoord::new(r, c), Marker::O);
    }
    assert_eq!(
        board.check_board_state(CellCoord::new(2, 1), Marker::X),
        BoardState::Playing
    );
}

#[test]
fn placing_out_of_bounds_changes_nothing() {
    let mut board = Board::new();
    board.place_marker(CellCoord::new(3, 1), Marker::X);
    board.place_marker(CellCoord::new(1, 7), Marker::O);
    for index in 0..9 {
        assert_eq!(board.get_cellstate_char(index), '_');
    }
    assert_eq!(board.get_corner_moves().len(), 4);
}

#[test]
fn placing_ignores_wrong_derived_fields() {
    let mut board = Board::new();
    let forged = CellCoord { row: 0, column: 0, index: 4, cell_type: CellType::Edge };
    board.place_marker(forged, Marker::X);
    assert_eq!(board.get_cellstate_char(0), 'X');
    assert_eq!(board.get_corner_moves().len(), 3);
    assert_eq!(board.get_edge_moves().len(), 4);
}

#[test]
fn validates_each_verdict() {
    let mut board = Board::new();
    board.place_marker(CellCoord::new(1, 1), Marker::O);
    assert_eq!(board.validate_move(CellCoord::new(1, 1)), Move::AlreadyUsed);
    assert_eq!(board.validate_move(CellCoord::new(2, 2)), Move::Valid);
    assert_eq!(board.validate_move(CellCoord::new(0, 3)), Move::OutOfBounds);
    assert_eq!(board.validate_move(CellCoord::new(3, 3)), Move::OutOfBounds);
}

#[test]
fn full_board_without_line_of_the_mover_is_a_tie() {
    let mut board = Board::new();
    let xs = [(0, 0), (0, 1), (1, 2), (1, 0), (2, 1)];
    let os = [(0, 2), (1, 1), (2, 0), (2, 2)];
    for i in 0..4 {
        board.place_marker(CellCoord::new(xs[i].0, xs[i].1), Marker::X);
        board.place_marker(CellCoord::new(os[i].0, os[i].1), Marker::O);
    }
    board.place_marker(CellCoord::new(2, 1), Marker::X);
    assert_eq!(
        board.check_board_state(CellCoord::new(2, 1), Marker::X),
        BoardState::Tie
    );
}

#[test]
fn win_on_the_ninth_placement_is_a_win() {
    let mut board = Board::new();
    for (r, c) in [(0, 1), (0, 2), (1, 0), (2, 1)] {
        board.place_marker(CellCoord::new(r, c), Marker::O);
    }
    for (r, c) in [(0, 0), (1, 2), (2, 0), (2, 2), (1, 1)] {
        board.place_marker(CellCoord::new(r, c), Marker::X);
    }
    assert_eq!(
        board.check_board_state(CellCoord::new(1, 1), Marker::X),
        BoardState::Win
    );
}

#[test]
fn evaluation_looks_only_at_lines_through_the_last_move() {
    let mut board = Board::new();
    for (r, c) in [(0, 0), (1, 1), (2, 2)] {
        board.place_marker(CellCoord::new(r, c), Marker::X);
    }
    board.place_marker(CellCoord::new(0, 1), Marker::X);
    // The falling diagonal is complete, but (0, 1) does not lie on it.
    assert_eq!(
        board.check_board_state(CellCoord::new(0, 1), Marker::X),
        BoardState::Playing
    );
    assert_eq!(
        board.check_board_state(CellCoord::new(1, 1), Marker::X),
        BoardState::Win
    );
    // A line of the other marker is no win of this one.
    assert_eq!(
        board.check_board_state(CellCoord::new(1, 1), Marker::O),
        BoardState::Playing
    );
}

#[test]
fn winning_moves_come_in_scan_order() {
    let mut board = Board::new();
    board.place_marker(CellCoord::new(0, 0), Marker::X);
    board.place_marker(CellCoord::new(0, 1), Marker::X);
    board.place_marker(CellCoord::new(1, 0), Marker::X);
    assert_eq!(
        board.get_winning_moves(Marker::X),
        coords(&[(0, 2), (2, 0)])
    );
    assert_eq!(board.get_winning_move(Marker::X), Some(CellCoord::new(2, 0)));
    assert!(board.get_winning_moves(Marker::O).is_empty());
}

#[test]
fn a_placement_blocks_the_winning_move_at_once() {
    let mut board = Board::new();
    board.place_marker(CellCoord::new(0, 0), Marker::X);
    board.place_marker(CellCoord::new(0, 1), Marker::X);
    assert_eq!(board.get_winning_move(Marker::X), Some(CellCoord::new(0, 2)));
    board.place_marker(CellCoord::new(0, 2), Marker::O);
    assert_eq!(board.get_winning_move(Marker::X), None);
    assert!(board.get_winning_moves(Marker::X).is_empty());
}

#[test]
fn mixed_line_offers_nothing() {
    let mut board = Board::new();
    board.place_marker(CellCoord::new(1, 0), Marker::X);
    board.place_marker(CellCoord::new(1, 1), Marker::O);
    let sets = board.get_single_marker_sets(Marker::X);
    assert_eq!(sets, vec![(CellCoord::new(1, 0), SetType::Column(0))]);
    assert_eq!(board.get_winning_move(Marker::X), None);
    assert_eq!(board.get_winning_move(Marker::O), None);
}

#[test]
fn single_marker_sets_come_in_scan_order() {
    let mut board = Board::new();
    board.place_marker(CellCoord::new(1, 1), Marker::X);
    let center = CellCoord::new(1, 1);
    assert_eq!(
        board.get_single_marker_sets(Marker::X),
        vec![
            (center, SetType::Row(1)),
            (center, SetType::Column(1)),
            (center, SetType::Diag1),
            (center, SetType::Diag2),
        ]
    );
    assert!(board.get_forking_move(Marker::X).is_empty());
}

#[test]
fn the_two_diagonals_meet_in_the_center() {
    let mut board = Board::new();
    board.place_marker(CellCoord::new(0, 0), Marker::X);
    board.place_marker(CellCoord::new(0, 2), Marker::X);
    board.place_marker(CellCoord::new(0, 1), Marker::O);
    let mut forks = board.get_forking_move(Marker::X);
    forks.sort();
    assert_eq!(forks, coords(&[(1, 1), (2, 0), (2, 2)]));
}

#[test]
fn forks_are_empty_cells_that_make_two_threats() {
    let mut board = Board::new();
    board.place_marker(CellCoord::new(0, 0), Marker::X);
    board.place_marker(CellCoord::new(1, 1), Marker::O);
    board.place_marker(CellCoord::new(2, 2), Marker::X);
    let forks = board.get_forking_move(Marker::X);
    assert_eq!(forks.len(), 2);
    for fork in forks {
        assert_eq!(board.validate_move(fork), Move::Valid);
        let mut after = Board::new();
        after.place_marker(CellCoord::new(0, 0), Marker::X);
        after.place_marker(CellCoord::new(1, 1), Marker::O);
        after.place_marker(CellCoord::new(2, 2), Marker::X);
        after.place_marker(fork, Marker::X);
        assert_eq!(after.get_winning_moves(Marker::X).len(), 2);
    }
}

#[test]
fn corner_pool_exhausts_after_four_corners() {
    let mut board = Board::new();
    for (i, (r, c)) in [(2, 2), (0, 0), (2, 0), (0, 2)].into_iter().enumerate() {
        assert_eq!(board.get_corner_moves().len(), 4 - i);
        board.place_marker(CellCoord::new(r, c), Marker::O);
    }
    assert_eq!(board.get_corner_move(), None);
    assert!(board.get_corner_moves().is_empty());
    assert_eq!(board.get_edge_moves().len(), 4);
    assert!(board.get_edge_move().is_some());
}

#[test]
fn pools_never_offer_a_marked_cell() {
    let mut board = Board::new();
    board.place_marker(CellCoord::new(0, 0), Marker::X);
    board.place_marker(CellCoord::new(0, 1), Marker::O);
    board.place_marker(CellCoord::new(1, 1), Marker::X);
    for _ in 0..60 {
        let corner = board.get_corner_move().unwrap();
        assert_eq!(corner.get_cell_type(), CellType::Corner);
        assert_eq!(board.validate_move(corner), Move::Valid);
        let edge = board.get_edge_move().unwrap();
        assert_eq!(edge.get_cell_type(), CellType::Edge);
        assert_eq!(board.validate_move(edge), Move::Valid);
    }
    assert_eq!(board.get_corner_moves(), coords(&[(0, 2), (2, 2), (2, 0)]));
    assert_eq!(board.get_edge_moves(), coords(&[(1, 2), (2, 1), (1, 0)]));
}

#[test]
fn center_placement_leaves_both_pools() {
    let mut board = Board::new();
    board.place_marker(CellCoord::new(1, 1), Marker::X);
    assert_eq!(board.get_corner_moves().len(), 4);
    assert_eq!(board.get_edge_moves().len(), 4);
}
