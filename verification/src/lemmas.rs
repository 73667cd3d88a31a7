//! Proofs about the model of the board that the engine's code relies on.

use vstd::prelude::*;
use crate::board::SetType;
use crate::common::{in_bounds, CellCoord, CellState, CellType, Marker};
use crate::grid::{
    candidate_entry, candidates_upto, cell, cell_at, count_in, crossing, fork_candidates, grid_wf,
    intersection, is_fork_cell, is_open, is_open_of_class, is_winning_cell, last_in, line_at,
    line_candidate, line_coord, line_threat, line_valid, line_view, on_line, open_cells,
    pool_matches, put, winning_in, winning_moves, winning_upto, Grid,
};

verus! {

/// The sequence without the occurrences of `c`.
pub open spec fn without(s: Seq<CellCoord>, c: CellCoord) -> Seq<CellCoord> {
    s.filter(|x: CellCoord| x != c)
}

/// Removing `c` keeps every other element, keeps the sequence free of
/// duplicates, and shortens a duplicate-free sequence by one exactly when
/// `c` occurred in it.
pub proof fn lemma_without(s: Seq<CellCoord>, c: CellCoord)
    ensures
        forall|x: CellCoord| #[trigger] without(s, c).contains(x) <==> (s.contains(x) && x != c),
        s.no_duplicates() ==> without(s, c).no_duplicates(),
        s.no_duplicates() && s.contains(c) ==> without(s, c).len() == s.len() - 1,
        !s.contains(c) ==> without(s, c) == s,
    decreases s.len(),
{
    reveal(Seq::filter);
    let out = without(s, c);
    if s.len() > 0 {
        let t = s.drop_last();
        let l = s.last();
        let sub = without(t, c);
        lemma_without(t, c);
        assert forall|x: CellCoord| #[trigger] out.contains(x) <==> (s.contains(x) && x != c) by {
            if out.contains(x) {
                let i = choose|i: int| 0 <= i < out.len() && out[i] == x;
                if i < sub.len() {
                    assert(sub.contains(x));
                }
            }
            if s.contains(x) && x != c {
                let j = choose|j: int| 0 <= j < s.len() && s[j] == x;
                if j < t.len() {
                    assert(t[j] == x);
                }
            }
        }
        if s.no_duplicates() {
            assert(!t.contains(l));
            assert(!sub.contains(l));
            if s.contains(c) && l != c {
                let j = choose|j: int| 0 <= j < s.len() && s[j] == c;
                assert(t[j] == c);
            }
        }
        if !s.contains(c) {
            assert(l != c);
            assert(!t.contains(c));
        }
    }
}

/// Marking an empty cell takes it out of the pool of its structural class and
/// leaves the other pools as they are.
pub proof fn lemma_pool_after_put(
    pool: Seq<CellCoord>,
    g: Grid,
    c: CellCoord,
    s: CellState,
    class: CellType,
)
    requires
        grid_wf(g),
        c.wf(),
        is_open(g, c),
        s != CellState::Empty,
        pool_matches(pool, g, class),
    ensures
        pool_matches(
            if c.cell_type == class {
                without(pool, c)
            } else {
                pool
            },
            put(g, c.row as int, c.column as int, s),
            class,
        ),
{
    let after = put(g, c.row as int, c.column as int, s);
    let rest = if c.cell_type == class {
        without(pool, c)
    } else {
        pool
    };
    lemma_without(pool, c);
    assert forall|r: int, k: int| in_bounds(r, k) implies #[trigger] cell(after, r, k) == if r
        == c.row && k == c.column {
        s
    } else {
        cell(g, r, k)
    } by {}
    if c.cell_type == class {
        assert(is_open_of_class(g, c, class));
    }
    assert forall|i: int| 0 <= i < rest.len() implies is_open_of_class(
        after,
        #[trigger] rest[i],
        class,
    ) by {
        assert(rest.contains(rest[i]));
    }
    assert forall|x: CellCoord| #[trigger] is_open_of_class(after, x, class) implies rest.contains(
        x,
    ) by {
        assert(is_open_of_class(g, x, class));
    }
}

/// The place of a line in the scan order.
pub open spec fn line_index(t: SetType) -> int {
    match t {
        SetType::Row(i) => i as int,
        SetType::Column(i) => 3 + i,
        SetType::Diag1 => 6,
        SetType::Diag2 => 7,
    }
}

/// The scan order lists each valid line once.
pub proof fn lemma_line_index(t: SetType)
    requires
        line_valid(t),
    ensures
        0 <= line_index(t) < 8,
        line_at(line_index(t)) == t,
{
}

/// Every place of the scan order holds a valid line.
pub proof fn lemma_line_at(k: int)
    requires
        0 <= k < 8,
    ensures
        line_valid(line_at(k)),
        line_index(line_at(k)) == k,
{
}

/// The cells of a valid line are well-formed coordinates on the grid.
pub proof fn lemma_line_cells(t: SetType, j: int)
    requires
        line_valid(t),
        0 <= j < 3,
    ensures
        line_coord(t, j).wf(),
        in_bounds(line_coord(t, j).row as int, line_coord(t, j).column as int),
        on_line(t, line_coord(t, j)),
{
}

/// Where a line holds `s` at all, the last such cell is a cell of the line
/// that holds `s`.
pub proof fn lemma_last_in(g: Grid, t: SetType, s: CellState)
    requires
        line_valid(t),
        count_in(line_view(g, t), s) >= 1,
    ensures
        last_in(line_view(g, t), s).wf(),
        in_bounds(
            last_in(line_view(g, t), s).row as int,
            last_in(line_view(g, t), s).column as int,
        ),
        on_line(t, last_in(line_view(g, t), s)),
        cell_at(g, last_in(line_view(g, t), s)) == s,
{
    lemma_line_cells(t, 0);
    lemma_line_cells(t, 1);
    lemma_line_cells(t, 2);
}

/// Where a line holds `s` in one cell only, a cell of the line that holds `s`
/// is that cell.
pub proof fn lemma_sole_cell(g: Grid, t: SetType, s: CellState, c: CellCoord)
    requires
        line_valid(t),
        count_in(line_view(g, t), s) == 1,
        c.wf(),
        on_line(t, c),
        cell_at(g, c) == s,
    ensures
        c == last_in(line_view(g, t), s),
{
    lemma_line_cells(t, 0);
    lemma_line_cells(t, 1);
    lemma_line_cells(t, 2);
}

/// Two different lines through one cell meet in that cell.
pub proof fn lemma_meet(t1: SetType, t2: SetType, c: CellCoord)
    requires
        line_valid(t1),
        line_valid(t2),
        t1 != t2,
        c.wf(),
        on_line(t1, c),
        on_line(t2, c),
    ensures
        intersection(t1, t2) == Some(c),
{
}

/// Where two lines meet, they differ, and the cell lies on the grid and on
/// both of them.
pub proof fn lemma_intersection(t1: SetType, t2: SetType)
    requires
        line_valid(t1),
        line_valid(t2),
        intersection(t1, t2) is Some,
    ensures
        t1 != t2,
        intersection(t1, t2)->0.wf(),
        in_bounds(intersection(t1, t2)->0.row as int, intersection(t1, t2)->0.column as int),
        on_line(t1, intersection(t1, t2)->0),
        on_line(t2, intersection(t1, t2)->0),
{
}

/// An element of a concatenation is an element of one of its parts.
pub proof fn lemma_contains_add<A>(a: Seq<A>, b: Seq<A>, x: A)
    ensures
        (a + b).contains(x) <==> (a.contains(x) || b.contains(x)),
{
    let ab = a + b;
    if a.contains(x) {
        let i = choose|i: int| 0 <= i < a.len() && a[i] == x;
        assert(ab[i] == x);
    }
    if b.contains(x) {
        let i = choose|i: int| 0 <= i < b.len() && b[i] == x;
        assert(ab[a.len() + i] == x);
    }
}

/// The line `m` threatens at place `k` of the scan has `c` as its empty cell.
pub open spec fn threat_at(g: Grid, m: Marker, k: int, c: CellCoord) -> bool {
    line_threat(g, line_at(k), m) && c == last_in(line_view(g, line_at(k)), CellState::Empty)
}

/// What the first `n` lines of the scan found as winning moves are the empty
/// cells of the lines among them that `m` threatens.
pub proof fn lemma_winning_upto(g: Grid, m: Marker, n: nat, c: CellCoord)
    ensures
        winning_upto(g, m, n).contains(c) <==> exists|k: int|
            0 <= k < n && #[trigger] threat_at(g, m, k, c),
    decreases n,
{
    if n > 0 {
        let k = (n - 1) as nat;
        lemma_winning_upto(g, m, k, c);
        let found = winning_in(line_view(g, line_at(k as int)), m);
        lemma_contains_add(winning_upto(g, m, k), found, c);
        if threat_at(g, m, k as int, c) {
            assert(found[0] == c);
        }
    }
}

/// The winning moves of `m` are the empty cells that complete a line for `m`.
pub proof fn lemma_winning_moves(g: Grid, m: Marker, c: CellCoord)
    requires
        grid_wf(g),
    ensures
        winning_moves(g, m).contains(c) <==> is_winning_cell(g, c, m),
{
    lemma_winning_upto(g, m, 8, c);
    if winning_moves(g, m).contains(c) {
        let k = choose|k: int| 0 <= k < 8 && #[trigger] threat_at(g, m, k, c);
        lemma_line_at(k);
        lemma_last_in(g, line_at(k), CellState::Empty);
    }
    if is_winning_cell(g, c, m) {
        let t = choose|t: SetType| line_valid(t) && on_line(t, c) && #[trigger] line_threat(g, t, m);
        lemma_line_index(t);
        lemma_sole_cell(g, t, CellState::Empty, c);
        assert(threat_at(g, m, line_index(t), c));
    }
}

/// The line at place `k` of the scan holds one `m` and two empty cells, and
/// `e` is what the scan records for it.
pub open spec fn candidate_at(g: Grid, m: Marker, k: int, e: (CellCoord, SetType)) -> bool {
    line_candidate(g, line_at(k), m) && e == (
        last_in(line_view(g, line_at(k)), m.state()),
        line_at(k),
    )
}

/// What the first `n` lines of the scan found as fork candidates are the
/// records of the lines among them that hold one `m` and two empty cells.
pub proof fn lemma_candidates_upto(g: Grid, m: Marker, n: nat, e: (CellCoord, SetType))
    ensures
        candidates_upto(g, m, n).contains(e) <==> exists|k: int|
            0 <= k < n && #[trigger] candidate_at(g, m, k, e),
    decreases n,
{
    if n > 0 {
        let k = (n - 1) as nat;
        lemma_candidates_upto(g, m, k, e);
        let found = candidate_entry(line_view(g, line_at(k as int)), line_at(k as int), m);
        lemma_contains_add(candidates_upto(g, m, k), found, e);
        if candidate_at(g, m, k as int, e) {
            assert(found[0] == e);
        }
    }
}

/// A record of a fork candidate: a valid line with one `m` and two empty
/// cells, and the cell of it that holds `m`.
pub open spec fn is_candidate(g: Grid, m: Marker, e: (CellCoord, SetType)) -> bool {
    &&& line_valid(e.1)
    &&& line_candidate(g, e.1, m)
    &&& e.0.wf()
    &&& on_line(e.1, e.0)
    &&& cell_at(g, e.0) == m.state()
}

/// The fork candidates of `m` are the records of the lines with one `m` and
/// two empty cells.
pub proof fn lemma_fork_candidates(g: Grid, m: Marker, e: (CellCoord, SetType))
    requires
        grid_wf(g),
    ensures
        fork_candidates(g, m).contains(e) <==> is_candidate(g, m, e),
{
    lemma_candidates_upto(g, m, 8, e);
    if fork_candidates(g, m).contains(e) {
        let k = choose|k: int| 0 <= k < 8 && #[trigger] candidate_at(g, m, k, e);
        lemma_line_at(k);
        lemma_last_in(g, line_at(k), m.state());
    }
    if is_candidate(g, m, e) {
        lemma_line_index(e.1);
        lemma_sole_cell(g, e.1, m.state(), e.0);
        assert(candidate_at(g, m, line_index(e.1), e));
    }
}

/// Every line recorded among the fork candidates is a valid line.
pub proof fn lemma_candidates_valid(g: Grid, m: Marker)
    requires
        grid_wf(g),
    ensures
        forall|i: int|
            0 <= i < fork_candidates(g, m).len() ==> line_valid(
                #[trigger] fork_candidates(g, m)[i].1,
            ),
{
    let entries = fork_candidates(g, m);
    assert forall|i: int| 0 <= i < entries.len() implies line_valid(#[trigger] entries[i].1) by {
        lemma_fork_candidates(g, m, entries[i]);
    }
}

/// On a line with one `m` and two empty cells, a cell that is not empty is
/// the cell that holds `m`.
proof fn lemma_marked_on_candidate(g: Grid, t: SetType, m: Marker, c: CellCoord)
    requires
        grid_wf(g),
        line_valid(t),
        line_candidate(g, t, m),
        c.wf(),
        on_line(t, c),
        cell_at(g, c) != CellState::Empty,
    ensures
        cell_at(g, c) == m.state(),
{
    lemma_line_cells(t, 0);
    lemma_line_cells(t, 1);
    lemma_line_cells(t, 2);
}

/// A cell where `m` forks is a well-formed coordinate of an empty cell.
pub proof fn lemma_fork_cell_open(g: Grid, c: CellCoord, m: Marker)
    requires
        is_fork_cell(g, c, m),
    ensures
        c.wf(),
        is_open(g, c),
{
    reveal(is_fork_cell);
}

/// The cells met by intersecting the lines of two fork candidates of
/// different marked cells are the cells where `m` forks.
pub proof fn lemma_forks(g: Grid, m: Marker, c: CellCoord)
    requires
        grid_wf(g),
    ensures
        crossing(fork_candidates(g, m), c) <==> is_fork_cell(g, c, m),
{
    reveal(is_fork_cell);
    let entries = fork_candidates(g, m);
    if crossing(entries, c) {
        let (i, j) = choose|i: int, j: int|
            0 <= i < entries.len() && 0 <= j < entries.len() && entries[i].0 != entries[j].0
                && #[trigger] intersection(entries[i].1, entries[j].1) == Some(c);
        let (held1, t1) = entries[i];
        let (held2, t2) = entries[j];
        lemma_fork_candidates(g, m, entries[i]);
        lemma_fork_candidates(g, m, entries[j]);
        lemma_intersection(t1, t2);
        if cell_at(g, c) != CellState::Empty {
            lemma_marked_on_candidate(g, t1, m, c);
            lemma_marked_on_candidate(g, t2, m, c);
            lemma_sole_cell(g, t1, m.state(), c);
            lemma_sole_cell(g, t1, m.state(), held1);
            lemma_sole_cell(g, t2, m.state(), c);
            lemma_sole_cell(g, t2, m.state(), held2);
        }
    }
    if is_fork_cell(g, c, m) {
        let (t1, t2) = choose|t1: SetType, t2: SetType|
            t1 != t2 && line_valid(t1) && line_valid(t2) && on_line(t1, c) && on_line(t2, c)
                && #[trigger] line_candidate(g, t1, m) && #[trigger] line_candidate(g, t2, m);
        let held1 = last_in(line_view(g, t1), m.state());
        let held2 = last_in(line_view(g, t2), m.state());
        lemma_last_in(g, t1, m.state());
        lemma_last_in(g, t2, m.state());
        lemma_fork_candidates(g, m, (held1, t1));
        lemma_fork_candidates(g, m, (held2, t2));
        lemma_meet(t1, t2, c);
        if held1 == held2 {
            lemma_meet(t1, t2, held1);
        }
    }
}

} // verus!
