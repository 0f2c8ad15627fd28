use crate::board::{full_grid, has_line, place_grid, Board, Grid};
use crate::player::{opponent, other, Player};
use vstd::prelude::*;

verus! {

/// What a successful move leads to.
#[derive(Clone, Copy, PartialEq, Eq, Structural, Debug)]
pub enum Outcome {
    /// The symbol that moved has completed a line; the game is over.
    Won(Player),
    /// The board is full with no line for the mover; the game is a tie.
    Draw,
    /// The game goes on, and the given symbol moves next.
    Next(Player),
}

/// The outcome after `p` has moved and the board reads `g`: a line for `p`
/// wins, otherwise a full board is a draw, otherwise the other symbol moves.
pub open spec fn outcome_of(g: Grid, p: Player) -> Outcome {
    if has_line(g, p) {
        Outcome::Won(p)
    } else if full_grid(g) {
        Outcome::Draw
    } else {
        Outcome::Next(other(p))
    }
}

/// Plays one move of `player` at `(row, col)`. A move onto an occupied cell
/// is refused with a message, the board is unchanged and the same symbol is
/// to move again; otherwise the cell is taken and the outcome is decided.
pub fn play_turn(board: &mut Board, player: Player, row: usize, col: usize) -> (r: Result<
    Outcome,
    String,
>)
    requires
        row < 3,
        col < 3,
    ensures
        final(board)@ == place_grid(old(board)@, row as int, col as int, player),
        r is Ok <==> old(board)@[row as int][col as int] is None,
        r matches Ok(o) ==> o == outcome_of(final(board)@, player),
        r matches Err(e) ==> e@ == "Cell is already occupied"@,
{
    match board.set_cell(row, col, player) {
        Err(e) => Err(e),
        Ok(()) => {
            if board.has_won(player) {
                Ok(Outcome::Won(player))
            } else if board.is_full() {
                Ok(Outcome::Draw)
            } else {
                Ok(Outcome::Next(opponent(player)))
            }
        },
    }
}

} // verus!
