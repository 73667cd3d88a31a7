//! What holds of the engine as a whole: statements that relate placements,
//! the evaluation of the board and the tactical queries to one another.

use vstd::prelude::*;
use crate::board::{Board, SetType};
use crate::common::{cell_type_at, in_bounds, CellCoord, CellState, CellType, Marker, Move};
use crate::grid::{
    cell, cell_at, count_in, evaluate, grid_wf, has_won, is_fork_cell, is_open, is_open_of_class,
    is_winning_cell, line_candidate, line_coord, line_threat, line_valid, line_view, line_won,
    marker_count, on_line, open_cells, put, validate, winning_moves, wins_through, Grid,
};
use crate::lemmas::{lemma_line_cells, lemma_winning_moves};

verus! {

/// What `put` does to the cells of the grid: the marked cell holds the new
/// state, every other cell holds what it held.
pub proof fn put_changes_one_cell(g: Grid, c: CellCoord, s: CellState)
    requires
        grid_wf(g),
        in_bounds(c.row as int, c.column as int),
    ensures
        grid_wf(put(g, c.row as int, c.column as int, s)),
        forall|r: int, k: int|
            in_bounds(r, k) ==> #[trigger] cell(put(g, c.row as int, c.column as int, s), r, k)
                == if r == c.row && k == c.column {
                s
            } else {
                cell(g, r, k)
            },
{
}

/// The evaluation after a placement reports a win exactly when a line through
/// the placed cell is held entirely by the placed marker, and in that case
/// every cell of that line holds the marker. Where the marker held no
/// complete line before the placement, looking at the lines through the
/// placed cell misses no win: the marker holds a complete line anywhere on
/// the board exactly when the evaluation reports a win.
pub proof fn win_iff_placement_completes_line(g: Grid, c: CellCoord, m: Marker)
    requires
        grid_wf(g),
        validate(g, c) == Move::Valid,
    ensures
        evaluate(put(g, c.row as int, c.column as int, m.state()), c, m) is Win <==> wins_through(
            put(g, c.row as int, c.column as int, m.state()),
            c,
            m,
        ),
        evaluate(put(g, c.row as int, c.column as int, m.state()), c, m) is Win ==> exists|
            t: SetType,
        |
            line_valid(t) && on_line(t, c) && #[trigger] line_won(
                put(g, c.row as int, c.column as int, m.state()),
                t,
                m,
            ) && forall|k: int|
                0 <= k < 3 ==> cell_at(
                    put(g, c.row as int, c.column as int, m.state()),
                    #[trigger] line_coord(t, k),
                ) == m.state(),
        !has_won(g, m) ==> (has_won(put(g, c.row as int, c.column as int, m.state()), m)
            <==> evaluate(put(g, c.row as int, c.column as int, m.state()), c, m) is Win),
{
    let after = put(g, c.row as int, c.column as int, m.state());
    put_changes_one_cell(g, c, m.state());
    if wins_through(after, c, m) {
        let t = choose|t: SetType| line_valid(t) && on_line(t, c) && #[trigger] line_won(after, t, m);
        assert forall|k: int| 0 <= k < 3 implies cell_at(after, #[trigger] line_coord(t, k))
            == m.state() by {}
    }
    if !has_won(g, m) && has_won(after, m) {
        // A line that misses the placed cell reads as it did before the
        // placement, so the complete line goes through the placed cell.
        let t = choose|t: SetType| line_valid(t) && #[trigger] line_won(after, t, m);
        assert(!line_won(g, t, m));
        lemma_line_cells(t, 0);
        lemma_line_cells(t, 1);
        lemma_line_cells(t, 2);
    }
}

/// The evaluation reports a tie exactly when all nine cells are marked and
/// the last placement completed no line.
pub proof fn tie_iff_full_without_win(g: Grid, last_move: CellCoord, m: Marker)
    ensures
        evaluate(g, last_move, m) is Tie <==> (marker_count(g) == 9 && !(evaluate(g, last_move, m)
            is Win)),
        evaluate(g, last_move, m) is Playing <==> (marker_count(g) != 9 && !(evaluate(
            g,
            last_move,
            m,
        ) is Win)),
{
}

/// A placement blocks: once a cell is marked, it is no winning move of either
/// marker, so a winning move that the opponent had there is gone at once.
pub proof fn placement_blocks_winning_move(g: Grid, c: CellCoord, m: Marker, w: Marker)
    requires
        grid_wf(g),
        validate(g, c) == Move::Valid,
    ensures
        !winning_moves(put(g, c.row as int, c.column as int, m.state()), w).contains(c),
        !is_winning_cell(put(g, c.row as int, c.column as int, m.state()), c, w),
{
    let after = put(g, c.row as int, c.column as int, m.state());
    put_changes_one_cell(g, c, m.state());
    lemma_winning_moves(after, w, c);
}

/// A fork is a double threat: a cell where `m` forks is empty, and once `m`
/// marks it, two different lines each hold two `m` and one empty cell.
pub proof fn fork_makes_two_threats(g: Grid, c: CellCoord, m: Marker)
    requires
        grid_wf(g),
        is_fork_cell(g, c, m),
    ensures
        is_open(g, c),
        exists|t1: SetType, t2: SetType|
            t1 != t2 && line_valid(t1) && line_valid(t2) && on_line(t1, c) && on_line(t2, c)
                && #[trigger] line_threat(put(g, c.row as int, c.column as int, m.state()), t1, m)
                && #[trigger] line_threat(put(g, c.row as int, c.column as int, m.state()), t2, m),
{
    reveal(is_fork_cell);
    let after = put(g, c.row as int, c.column as int, m.state());
    put_changes_one_cell(g, c, m.state());
    let (t1, t2) = choose|t1: SetType, t2: SetType|
        t1 != t2 && line_valid(t1) && line_valid(t2) && on_line(t1, c) && on_line(t2, c)
            && #[trigger] line_candidate(g, t1, m) && #[trigger] line_candidate(g, t2, m);
    candidate_becomes_threat(g, c, m, t1);
    candidate_becomes_threat(g, c, m, t2);
}

/// Marking an empty cell of a line with one `m` and two empty cells leaves
/// the line with two `m` and one empty cell.
proof fn candidate_becomes_threat(g: Grid, c: CellCoord, m: Marker, t: SetType)
    requires
        grid_wf(g),
        is_open(g, c),
        line_valid(t),
        on_line(t, c),
        line_candidate(g, t, m),
    ensures
        line_threat(put(g, c.row as int, c.column as int, m.state()), t, m),
{
    let after = put(g, c.row as int, c.column as int, m.state());
    put_changes_one_cell(g, c, m.state());
    lemma_line_cells(t, 0);
    lemma_line_cells(t, 1);
    lemma_line_cells(t, 2);
    let before_view = line_view(g, t);
    let after_view = line_view(after, t);
    assert forall|k: int| 0 <= k < 3 implies (#[trigger] after_view[k]).0 == if line_coord(t, k)@
        == c@ {
        m.state()
    } else {
        before_view[k].0
    } by {}
}

/// A placement shrinks the pool of its structural class by one and leaves the
/// other pool as it is: the count of empty cells of the placed cell's class
/// drops by one, and that of every other class stays.
pub proof fn placement_shrinks_one_pool(g: Grid, c: CellCoord, m: Marker, class: CellType)
    requires
        grid_wf(g),
        validate(g, c) == Move::Valid,
    ensures
        open_cells(put(g, c.row as int, c.column as int, m.state()), class) == open_cells(g, class)
            - if cell_type_at(c.row as int, c.column as int) == class {
            1int
        } else {
            0int
        },
{
    put_changes_one_cell(g, c, m.state());
}

/// On a board whose caches agree with its grid, the pools hold as many moves
/// as there are empty corners and empty edges, never a marked cell, and a
/// valid placement takes exactly the placed cell out of them.
pub proof fn pools_follow_placements(before: Board, after: Board, c: CellCoord, m: Marker)
    requires
        before.wf(),
        after.wf(),
        validate(before@, c) == Move::Valid,
        after@ == put(before@, c.row as int, c.column as int, m.state()),
    ensures
        forall|i: int|
            0 <= i < after.corner_pool().len() ==> is_open(after@, #[trigger] after.corner_pool()[i]),
        forall|i: int|
            0 <= i < after.edge_pool().len() ==> is_open(after@, #[trigger] after.edge_pool()[i]),
        after.corner_pool().len() == before.corner_pool().len() - if cell_type_at(
            c.row as int,
            c.column as int,
        ) == CellType::Corner {
            1int
        } else {
            0int
        },
        after.edge_pool().len() == before.edge_pool().len() - if cell_type_at(
            c.row as int,
            c.column as int,
        ) == CellType::Edge {
            1int
        } else {
            0int
        },
        0 <= after.corner_pool().len() <= 4,
        0 <= after.edge_pool().len() <= 4,
{
    placement_shrinks_one_pool(before@, c, m, CellType::Corner);
    placement_shrinks_one_pool(before@, c, m, CellType::Edge);
}

} // verus!
