//! A two-player Connect Four board engine.
//!
//! The board is seven columns wide and six rows high. Tokens are dropped into
//! a column and stack bottom-up; after every drop the engine classifies the
//! game as won, tied or still in progress by looking at the four lines that
//! pass through the token just placed.
//!
//! Every function is specified against a mathematical model of the board, a
//! sequence of columns each of which is a sequence of tokens, and verified
//! against that specification.

pub mod board;
pub mod game;
pub mod input;
pub mod laws;
pub mod lines;
pub mod render;

pub use board::{GameState, PlaceError, Player, BOARD_HEIGHT, BOARD_WIDTH, WIN_LENGTH};
pub use game::ConnectFourGame;
pub use input::TurnStep;
