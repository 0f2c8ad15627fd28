use tictactoe::{player_to_string, Player};

#[test]
fn it_returns_x_given_x() {
    assert_eq!("X", player_to_string(Player::X));
}

#[test]
fn it_returns_o_given_o() {
    assert_eq!("O", player_to_string(Player::O));
}
