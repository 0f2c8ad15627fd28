//! A two-player game on a fixed 3x3 grid: the board state machine, the
//! rules that decide a win or a draw, the parsing of typed coordinates and
//! the text rendering of a board.

pub mod board;
pub mod game;
pub mod input;
pub mod laws;
pub mod output;
pub mod player;

pub use board::Board;
pub use game::{play_turn, Outcome};
pub use input::parse_coordinate;
pub use output::render_board;
pub use player::{opponent, player_to_string, Player};
