use tictactoe::{Board, Player};

#[test]
fn board_it_creates_an_empty_board() {
    let board = Board::new();
    for row in 0..3 {
        for col in 0..3 {
            assert_eq!(None, board.get_cell(row, col));
        }
    }
}

#[test]
fn board_it_returns_false_if_no_one_has_won() {
    let board = Board::new();
    assert_eq!(false, board.has_won(Player::X));
    assert_eq!(false, board.has_won(Player::O));
}

#[test]
fn board_it_returns_true_for_x_if_x_has_won() {
    let mut board = Board::new();
    assert_eq!(Ok(()), board.set_cell(0, 0, Player::X));
    assert_eq!(Ok(()), board.set_cell(0, 1, Player::X));
    assert_eq!(Ok(()), board.set_cell(0, 2, Player::X));
    assert_eq!(true, board.has_won(Player::X));
}

#[test]
fn board_it_returns_false_for_o_if_x_has_won() {
    let mut board = Board::new();
    assert_eq!(Ok(()), board.set_cell(0, 0, Player::X));
    assert_eq!(Ok(()), board.set_cell(0, 1, Player::X));
    assert_eq!(Ok(()), board.set_cell(0, 2, Player::X));
    assert_eq!(false, board.has_won(Player::O));
}

#[test]
fn board_it_returns_true_for_x_if_x_has_won_in_a_column() {
    let mut board = Board::new();
    assert_eq!(Ok(()), board.set_cell(0, 0, Player::X));
    assert_eq!(Ok(()), board.set_cell(1, 0, Player::X));
    assert_eq!(Ok(()), board.set_cell(2, 0, Player::X));
    assert_eq!(true, board.has_won(Player::X));
}

#[test]
fn board_it_returns_false_for_o_if_x_has_won_in_a_column() {
    let mut board = Board::new();
    assert_eq!(Ok(()), board.set_cell(0, 0, Player::X));
    assert_eq!(Ok(()), board.set_cell(1, 0, Player::X));
    assert_eq!(Ok(()), board.set_cell(2, 0, Player::X));
    assert_eq!(false, board.has_won(Player::O));
}

#[test]
fn board_it_returns_true_for_x_if_x_has_won_in_a_diagonal() {
    let mut board = Board::new();
    assert_eq!(Ok(()), board.set_cell(0, 0, Player::X));
    assert_eq!(Ok(()), board.set_cell(1, 1, Player::X));
    assert_eq!(Ok(()), board.set_cell(2, 2, Player::X));
    assert_eq!(true, board.has_won(Player::X));
}

#[test]
fn board_it_returns_false_for_o_if_x_has_won_in_a_diagonal() {
    let mut board = Board::new();
    assert_eq!(Ok(()), board.set_cell(0, 0, Player::X));
    assert_eq!(Ok(()), board.set_cell(1, 1, Player::X));
    assert_eq!(Ok(()), board.set_cell(2, 2, Player::X));
    assert_eq!(false, board.has_won(Player::O));
}

#[test]
fn board_it_returns_the_value_of_the_cell_at_the_given_row_and_column() {
    let mut board = Board::new();
    assert_eq!(Ok(()), board.set_cell(0, 0, Player::X));
    assert_eq!(Some(Player::X), board.get_cell(0, 0));
    assert_eq!(Ok(()), board.set_cell(1, 2, Player::O));
    assert_eq!(Some(Player::O), board.get_cell(1, 2));
}

#[test]
fn board_it_returns_true_if_the_board_is_full() {
    let mut board = Board::new();
    assert_eq!(Ok(()), board.set_cell(0, 0, Player::X));
    assert_eq!(Ok(()), board.set_cell(0, 1, Player::X));
    assert_eq!(Ok(()), board.set_cell(0, 2, Player::X));
    assert_eq!(Ok(()), board.set_cell(1, 0, Player::X));
    assert_eq!(Ok(()), board.set_cell(1, 1, Player::X));
    assert_eq!(Ok(()), board.set_cell(1, 2, Player::X));
    assert_eq!(Ok(()), board.set_cell(2, 0, Player::X));
    assert_eq!(Ok(()), board.set_cell(2, 1, Player::X));
    assert_eq!(Ok(()), board.set_cell(2, 2, Player::X));
    assert_eq!(true, board.is_full());
}

#[test]
fn board_it_returns_false_if_the_board_is_full() {
    let mut board = Board::new();
    assert_eq!(false, board.is_full());
    assert_eq!(Ok(()), board.set_cell(0, 0, Player::X));
    assert_eq!(false, board.is_full());
    assert_eq!(Ok(()), board.set_cell(0, 1, Player::X));
    assert_eq!(false, board.is_full());
    assert_eq!(Ok(()), board.set_cell(0, 2, Player::X));
    assert_eq!(Ok(()), board.set_cell(2, 2, Player::O));
    assert_eq!(false, board.is_full());
}
