use crate::board::{Board, Grid};
use crate::player::{label, player_to_string, Player};
use vstd::prelude::*;

verus! {

/// The character shown for a cell: its symbol's label, or a space.
pub open spec fn cell_char(c: Option<Player>) -> char {
    match c {
        Some(p) => label(p),
        None => ' ',
    }
}

/// One row of the rendering: the three cells separated by `|`, then a
/// line break.
pub open spec fn row_text(g: Grid, row: int) -> Seq<char> {
    seq![cell_char(g[row][0]), '|', cell_char(g[row][1]), '|', cell_char(g[row][2]), '\n']
}

/// The line drawn between two rows.
pub open spec fn separator() -> Seq<char> {
    seq!['-', '-', '-', '-', '-', '\n']
}

/// The whole rendering: three rows with a separator between each two.
pub open spec fn board_text(g: Grid) -> Seq<char> {
    row_text(g, 0) + separator() + row_text(g, 1) + separator() + row_text(g, 2)
}

fn cell_string(cell: Option<Player>) -> (r: String)
    ensures
        r@ == seq![cell_char(cell)],
{
    match cell {
        Some(player) => player_to_string(player),
        None => {
            proof {
                reveal_strlit(" ");
            }
            String::from_str(" ")
        },
    }
}

fn render_row(board: &Board, row: usize) -> (r: String)
    requires
        row < 3,
    ensures
        r@ == row_text(board@, row as int),
{
    let mut out = String::new();
    let mut col: usize = 0;
    while col < 3
        invariant
            col <= 3,
            row < 3,
            out@ == row_text(board@, row as int).subrange(0, 2 * col as int),
        decreases 3 - col,
    {
        let cell = cell_string(board.get_cell(row, col));
        out.append(cell.as_str());
        if col < 2 {
            out.append("|");
        } else {
            out.append("\n");
        }
        proof {
            reveal_strlit("|");
            reveal_strlit("\n");
            assert(out@ =~= row_text(board@, row as int).subrange(0, 2 * col + 2));
        }
        col += 1;
    }
    assert(out@ =~= row_text(board@, row as int));
    out
}

/// The text rendering of a board: each row on its own line with cells
/// separated by `|`, occupied cells shown by their label and empty ones by a
/// space, and a line of five dashes between two rows.
pub fn render_board(board: &Board) -> (r: String)
    ensures
        r@ == board_text(board@),
{
    proof {
        reveal_strlit("-----\n");
    }
    let mut out = render_row(board, 0);
    out.append("-----\n");
    let second = render_row(board, 1);
    out.append(second.as_str());
    out.append("-----\n");
    let third = render_row(board, 2);
    out.append(third.as_str());
    assert(out@ =~= board_text(board@));
    out
}

} // verus!
