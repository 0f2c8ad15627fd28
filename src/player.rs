use vstd::prelude::*;

verus! {

/// One of the two symbols that the players place on the board.
#[derive(Clone, Copy, PartialEq, Eq, Structural, Debug)]
pub enum Player {
    X,
    O,
}

/// The single-character label shown for a symbol.
pub open spec fn label(p: Player) -> char {
    match p {
        Player::X => 'X',
        Player::O => 'O',
    }
}

/// The symbol that moves after `p`.
pub open spec fn other(p: Player) -> Player {
    match p {
        Player::X => Player::O,
        Player::O => Player::X,
    }
}

/// The label of a symbol as a one-character string.
pub fn player_to_string(player: Player) -> (r: String)
    ensures
        r@ == seq![label(player)],
{
    match player {
        Player::X => {
            proof {
                reveal_strlit("X");
            }
            String::from_str("X")
        },
        Player::O => {
            proof {
                reveal_strlit("O");
            }
            String::from_str("O")
        },
    }
}

/// The symbol whose turn follows that of `player`.
pub fn opponent(player: Player) -> (r: Player)
    ensures
        r == other(player),
        r != player,
{
    match player {
        Player::X => Player::O,
        Player::O => Player::X,
    }
}

} // verus!
