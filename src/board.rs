use crate::player::Player;
use vstd::prelude::*;

verus! {

/// The contents of a board: three rows of three cells, each empty (`None`)
/// or held by one symbol.
pub type Grid = Seq<Seq<Option<Player>>>;

/// `(row, col)` addresses a cell of the board.
pub open spec fn in_bounds(row: int, col: int) -> bool {
    0 <= row < 3 && 0 <= col < 3
}

/// The grid has three rows of three cells.
pub open spec fn well_shaped(g: Grid) -> bool {
    g.len() == 3 && forall|r: int| 0 <= r < 3 ==> #[trigger] g[r].len() == 3
}

/// The grid of a fresh board: every cell empty.
pub open spec fn empty_grid() -> Grid {
    seq![seq![None, None, None], seq![None, None, None], seq![None, None, None]]
}

/// The grid after `p` is placed at `(row, col)`: the cell is taken when it
/// is empty, and an occupied cell keeps its occupant.
pub open spec fn place_grid(g: Grid, row: int, col: int, p: Player) -> Grid {
    if g[row][col] is Some {
        g
    } else {
        g.update(row, g[row].update(col, Some(p)))
    }
}

/// Every cell of the grid is occupied.
pub open spec fn full_grid(g: Grid) -> bool {
    forall|r: int, c: int| in_bounds(r, c) ==> #[trigger] g[r][c] is Some
}

/// The cell at `(row, col)` holds `p`.
pub open spec fn owns(g: Grid, p: Player, row: int, col: int) -> bool {
    g[row][col] == Some(p)
}

/// `p` holds all three cells of a row, a column or a diagonal.
pub open spec fn has_line(g: Grid, p: Player) -> bool {
    ||| exists|r: int| 0 <= r < 3 && #[trigger] owns(g, p, r, 0) && owns(g, p, r, 1) && owns(g, p, r, 2)
    ||| exists|c: int| 0 <= c < 3 && #[trigger] owns(g, p, 0, c) && owns(g, p, 1, c) && owns(g, p, 2, c)
    ||| owns(g, p, 0, 0) && owns(g, p, 1, 1) && owns(g, p, 2, 2)
    ||| owns(g, p, 0, 2) && owns(g, p, 1, 1) && owns(g, p, 2, 0)
}

/// Whether `cell` is occupied by `p`.
fn held_by(cell: Option<Player>, p: Player) -> (r: bool)
    ensures
        r == (cell == Some(p)),
{
    match cell {
        Some(q) => q == p,
        None => false,
    }
}

/// A 3x3 game board. Cells only go from empty to occupied, and an occupied
/// cell never changes its occupant.
pub struct Board {
    cells: [[Option<Player>; 3]; 3],
}

impl View for Board {
    type V = Grid;

    closed spec fn view(&self) -> Grid {
        seq![self.cells[0]@, self.cells[1]@, self.cells[2]@]
    }
}

impl Board {
    /// The grid of a board always has three rows of three cells.
    pub proof fn lemma_well_shaped(&self)
        ensures
            well_shaped(self@),
    {
        self.lemma_shape();
    }

    proof fn lemma_shape(&self)
        ensures
            well_shaped(self@),
            forall|r: int, c: int| in_bounds(r, c) ==> #[trigger] self@[r][c] == self.cells[r][c],
    {
        assert(self.cells[0]@.len() == 3);
        assert(self.cells[1]@.len() == 3);
        assert(self.cells[2]@.len() == 3);
    }

    /// A board with every cell empty.
    pub fn new() -> (r: Board)
        ensures
            r@ == empty_grid(),
            forall|row: int, col: int| in_bounds(row, col) ==> #[trigger] r@[row][col] is None,
    {
        let r = Board { cells: [[None, None, None], [None, None, None], [None, None, None]] };
        assert(r@ =~~= empty_grid());
        r
    }

    /// The occupant of the cell at `(row, col)`, or `None` when it is empty.
    pub fn get_cell(&self, row: usize, col: usize) -> (r: Option<Player>)
        requires
            row < 3,
            col < 3,
        ensures
            r == self@[row as int][col as int],
    {
        proof {
            self.lemma_shape();
        }
        self.cells[row][col]
    }

    /// Places `player` at `(row, col)`. An occupied cell is left as it is and
    /// the call fails with a message.
    pub fn set_cell(&mut self, row: usize, col: usize, player: Player) -> (r: Result<(), String>)
        requires
            row < 3,
            col < 3,
        ensures
            final(self)@ == place_grid(old(self)@, row as int, col as int, player),
            r is Ok <==> old(self)@[row as int][col as int] is None,
            r matches Err(e) ==> e@ == "Cell is already occupied"@,
    {
        proof {
            self.lemma_shape();
        }
        if self.cells[row][col].is_some() {
            return Err(String::from_str("Cell is already occupied"));
        }
        let ghost before = self@;
        self.cells[row][col] = Some(player);
        proof {
            self.lemma_shape();
            assert(self@ =~~= place_grid(before, row as int, col as int, player));
        }
        Ok(())
    }

    /// Whether every one of the nine cells is occupied.
    pub fn is_full(&self) -> (r: bool)
        ensures
            r == full_grid(self@),
    {
        proof {
            self.lemma_shape();
        }
        let mut row: usize = 0;
        while row < 3
            invariant
                row <= 3,
                forall|r: int, c: int| 0 <= r < row && 0 <= c < 3 ==> #[trigger] self@[r][c] is Some,
            decreases 3 - row,
        {
            let mut col: usize = 0;
            while col < 3
                invariant
                    row < 3,
                    col <= 3,
                    forall|r: int, c: int| 0 <= r < row && 0 <= c < 3 ==> #[trigger] self@[r][c] is Some,
                    forall|c: int| 0 <= c < col ==> #[trigger] self@[row as int][c] is Some,
                decreases 3 - col,
            {
                if self.cells[row][col].is_none() {
                    return false;
                }
                col += 1;
            }
            row += 1;
        }
        true
    }

    /// Whether `player` holds all three cells of a row, a column or a
    /// diagonal. The other symbol plays no part in the answer.
    pub fn has_won(&self, player: Player) -> (r: bool)
        ensures
            r == has_line(self@, player),
    {
        proof {
            self.lemma_shape();
        }
        let mut row: usize = 0;
        while row < 3
            invariant
                row <= 3,
                forall|r: int| 0 <= r < row ==> !(#[trigger] owns(self@, player, r, 0) && owns(self@, player, r, 1) && owns(self@, player, r, 2)),
            decreases 3 - row,
        {
            if held_by(self.cells[row][0], player) && held_by(self.cells[row][1], player)
                && held_by(self.cells[row][2], player) {
                assert(owns(self@, player, row as int, 0));
                return true;
            }
            row += 1;
        }
        let mut col: usize = 0;
        while col < 3
            invariant
                col <= 3,
                forall|c: int| 0 <= c < col ==> !(#[trigger] owns(self@, player, 0, c) && owns(self@, player, 1, c) && owns(self@, player, 2, c)),
            decreases 3 - col,
        {
            if held_by(self.cells[0][col], player) && held_by(self.cells[1][col], player)
                && held_by(self.cells[2][col], player) {
                assert(owns(self@, player, 0, col as int));
                return true;
            }
            col += 1;
        }
        if held_by(self.cells[0][0], player) && held_by(self.cells[1][1], player)
            && held_by(self.cells[2][2], player) {
            return true;
        }
        held_by(self.cells[0][2], player) && held_by(self.cells[1][1], player)
            && held_by(self.cells[2][0], player)
    }
}

} // verus!
