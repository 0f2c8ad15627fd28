use crate::board::{
    empty_grid, full_grid, has_line, in_bounds, owns, place_grid, well_shaped, Grid,
};
use crate::player::{other, Player};
use vstd::prelude::*;

verus! {

/// A fresh board has all nine cells empty.
pub proof fn empty_grid_is_empty()
    ensures
        well_shaped(empty_grid()),
        forall|r: int, c: int| in_bounds(r, c) ==> #[trigger] empty_grid()[r][c] is None,
{
}

/// Placing a symbol on an empty cell and then reading that cell gives the
/// symbol; every other cell reads as before.
pub proof fn get_after_place(g: Grid, row: int, col: int, p: Player)
    requires
        well_shaped(g),
        in_bounds(row, col),
        g[row][col] is None,
    ensures
        place_grid(g, row, col, p)[row][col] == Some(p),
        forall|r: int, c: int|
            in_bounds(r, c) && (r, c) != (row, col) ==> #[trigger] place_grid(g, row, col, p)[r][c]
                == g[r][c],
{
}

/// Placing on an occupied cell leaves the whole board, and so that cell's
/// occupant, unchanged.
pub proof fn place_on_occupied_keeps_board(g: Grid, row: int, col: int, p: Player)
    requires
        well_shaped(g),
        in_bounds(row, col),
        g[row][col] is Some,
    ensures
        place_grid(g, row, col, p) == g,
        place_grid(g, row, col, p)[row][col] == g[row][col],
{
}

/// A placement never empties a cell nor changes an occupant, and it keeps
/// the board's shape.
pub proof fn placement_is_monotonic(g: Grid, row: int, col: int, p: Player)
    requires
        well_shaped(g),
        in_bounds(row, col),
    ensures
        well_shaped(place_grid(g, row, col, p)),
        forall|r: int, c: int|
            in_bounds(r, c) && (#[trigger] g[r][c]) is Some ==> place_grid(g, row, col, p)[r][c]
                == g[r][c],
{
}

/// Once the board is full it stays full, whatever is placed next.
pub proof fn full_stays_full(g: Grid, row: int, col: int, p: Player)
    requires
        well_shaped(g),
        in_bounds(row, col),
        full_grid(g),
    ensures
        full_grid(place_grid(g, row, col, p)),
{
}

/// The board turns full exactly when the last empty cell is taken.
pub proof fn full_after_place(g: Grid, row: int, col: int, p: Player)
    requires
        well_shaped(g),
        in_bounds(row, col),
    ensures
        full_grid(place_grid(g, row, col, p)) <==> (forall|r: int, c: int|
            in_bounds(r, c) && (r, c) != (row, col) ==> #[trigger] g[r][c] is Some),
{
    let h = place_grid(g, row, col, p);
    if forall|r: int, c: int| in_bounds(r, c) && (r, c) != (row, col) ==> #[trigger] g[r][c] is Some {
        assert forall|r: int, c: int| in_bounds(r, c) implies #[trigger] h[r][c] is Some by {
            if (r, c) != (row, col) {
                assert(g[r][c] is Some);
            }
        }
    }
    if full_grid(h) {
        assert forall|r: int, c: int| in_bounds(r, c) && (r, c) != (row, col) implies #[trigger] g[r][c] is Some by {
            assert(h[r][c] is Some);
        }
    }
}

/// No symbol has won on an empty board.
pub proof fn empty_grid_has_no_winner(p: Player)
    ensures
        !has_line(empty_grid(), p),
{
}

/// The grid after `p` takes the three given cells of an empty board in turn.
pub open spec fn three_placed(p: Player, a: (int, int), b: (int, int), c: (int, int)) -> Grid {
    place_grid(place_grid(place_grid(empty_grid(), a.0, a.1, p), b.0, b.1, p), c.0, c.1, p)
}

/// Taking the whole top row wins for that symbol and not for the other.
pub proof fn top_row_wins(p: Player)
    ensures
        has_line(three_placed(p, (0, 0), (0, 1), (0, 2)), p),
        !has_line(three_placed(p, (0, 0), (0, 1), (0, 2)), other(p)),
{
    let g = three_placed(p, (0, 0), (0, 1), (0, 2));
    assert(owns(g, p, 0, 0));
}

/// Taking the left column, or either diagonal, wins for that symbol.
pub proof fn column_and_diagonals_win(p: Player)
    ensures
        has_line(three_placed(p, (0, 0), (1, 0), (2, 0)), p),
        has_line(three_placed(p, (0, 0), (1, 1), (2, 2)), p),
        has_line(three_placed(p, (0, 2), (1, 1), (2, 0)), p),
{
    let g = three_placed(p, (0, 0), (1, 0), (2, 0));
    assert(owns(g, p, 0, 0));
}

} // verus!
