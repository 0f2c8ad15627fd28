use std::io::{BufRead, BufReader};
use tictactoe::parse_coordinate;

/// Reads a row line and then a column line, as the game's input does.
fn read_move(reader: &mut dyn BufRead) -> Result<(usize, usize), String> {
    let mut line = String::new();
    reader.read_line(&mut line).map_err(|e| e.to_string())?;
    let row = parse_coordinate(&line, "row")?;
    let mut line = String::new();
    reader.read_line(&mut line).map_err(|e| e.to_string())?;
    let col = parse_coordinate(&line, "col")?;
    Ok((row, col))
}

#[test]
fn input_it_returns_valid_input_given_valid_input() {
    let mut reader = BufReader::new("1\n2\n".as_bytes());
    let (row, col) = read_move(&mut reader).unwrap();
    assert_eq!(1, row);
    assert_eq!(2, col);
}

#[test]
fn input_it_returns_an_error_given_an_invalid_row() {
    let mut reader = BufReader::new("3\n1\n".as_bytes());
    let result = read_move(&mut reader);
    assert!(result.is_err());
    assert_eq!("Invalid input for row!", result.err().unwrap());
}

#[test]
fn main_it_returns_valid_input_given_valid_input() {
    let mut reader = BufReader::new("1\n2\n".as_bytes());
    let (row, col) = read_move(&mut reader).unwrap();
    assert_eq!(1, row);
    assert_eq!(2, col);
}

#[test]
fn main_it_returns_an_error_given_an_invalid_row() {
    let mut reader = BufReader::new("3\n1\n".as_bytes());
    let result = read_move(&mut reader);
    assert!(result.is_err());
    assert_eq!("Invalid input for row!", result.err().unwrap());
}
