//! What a player may type, and one step of a turn: from a line of input to
//! the move it asks for and the state of the game after it.

use vstd::prelude::*;
use vstd::string::StrSliceExecFns;
use crate::board::{column_full, drop_token, GameState, Grid, Player, BOARD_WIDTH};
use crate::game::ConnectFourGame;
use crate::lines::outcome;

verus! {

/// The character that ends the game.
pub const COMMAND_QUIT: char = 'q';

/// The input is the single character that ends the game.
pub open spec fn quit_text(input: Seq<char>) -> bool {
    input.len() == 1 && input[0] == COMMAND_QUIT
}

/// The input is a single digit that names a column, `1` for the leftmost
/// and `7` for the rightmost.
pub open spec fn column_text(input: Seq<char>) -> bool {
    input.len() == 1 && '1' <= input[0] <= '7'
}

/// The input is a game control: the command to quit, or a column.
pub open spec fn valid_input(input: Seq<char>) -> bool {
    quit_text(input) || column_text(input)
}

/// The index of the column that the input names, counted from zero.
pub open spec fn column_of(input: Seq<char>) -> int {
    input[0] as int - '1' as int
}

/// What became of one line of input.
#[derive(Clone, Copy, Debug, PartialEq, Eq, Structural)]
pub enum TurnStep {
    /// The turn is over and the game stands as given. Quitting ends the turn
    /// with a tie.
    Finished(GameState),
    /// The input is no game control; the player is asked again.
    InvalidMove,
    /// The column with this index is full; the player is asked again.
    ColumnFull(usize),
}

/// The answer to one line of `input` from `player` on the grid `g`.
pub open spec fn turn_step(g: Grid, player: Player, input: Seq<char>) -> TurnStep {
    if quit_text(input) {
        TurnStep::Finished(GameState::Tie)
    } else if !column_text(input) {
        TurnStep::InvalidMove
    } else if column_full(g, column_of(input)) {
        TurnStep::ColumnFull(column_of(input) as usize)
    } else {
        TurnStep::Finished(
            outcome(drop_token(g, player, column_of(input)), player, column_of(input)),
        )
    }
}

/// The grid after one line of `input` from `player`: a token more where the
/// input names a column with room, otherwise unchanged.
pub open spec fn turn_grid(g: Grid, player: Player, input: Seq<char>) -> Grid {
    if column_text(input) {
        drop_token(g, player, column_of(input))
    } else {
        g
    }
}

impl ConnectFourGame {
    /// Whether `input` is a game control: `q`, or one digit from `1` to `7`.
    pub fn is_valid_input(&self, input: &String) -> (valid: bool)
        ensures
            valid == valid_input(input@),
    {
        let text = input.as_str();
        if text.unicode_len() != 1 {
            return false;
        }
        let c = text.get_char(0);
        c == COMMAND_QUIT || ('1' <= c && c <= '7')
    }

    /// Converts the digit of a column, counted from one, into the column's
    /// index, counted from zero.
    pub fn convert_input_to_column(&self, input: String) -> (col: usize)
        requires
            column_text(input@),
        ensures
            col == column_of(input@),
            col < BOARD_WIDTH,
    {
        let c = input.as_str().get_char(0);
        (c as usize) - ('1' as usize)
    }

    /// Plays one line of input for `active_player`. A column with room takes
    /// the player's token and the game is classified; quitting ends the game
    /// as a tie; on anything else the board stays as it is and the player is
    /// to be asked again.
    pub fn turn(&mut self, active_player: Player, input: String) -> (step: TurnStep)
        requires
            old(self).wf(),
        ensures
            final(self).wf(),
            final(self)@ == turn_grid(old(self)@, active_player, input@),
            step == turn_step(old(self)@, active_player, input@),
    {
        if !self.is_valid_input(&input) {
            return TurnStep::InvalidMove;
        }
        if input.as_str().get_char(0) == COMMAND_QUIT {
            return TurnStep::Finished(GameState::Tie);
        }
        let col = self.convert_input_to_column(input);
        match self.place(active_player, col) {
            Ok(()) => TurnStep::Finished(self.check_win(active_player, col)),
            Err(_) => TurnStep::ColumnFull(col),
        }
    }
}

} // verus!
