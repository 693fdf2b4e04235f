//! The board engine: placing tokens and classifying the game after a move.

use vstd::prelude::*;
use crate::board::{
    board_full, column_full, drop_token, empty_grid, holds, just_played, well_formed, GameState,
    Grid, PlaceError, Player, BOARD_HEIGHT, BOARD_WIDTH, WIN_LENGTH,
};
use crate::lines::{
    back_diagonal_win, back_marks, column_marks, column_win, forward_diagonal_win, forward_marks,
    has_four, lemma_back_marks, lemma_column_marks, lemma_forward_marks, lemma_row_marks, lemma_scan_done,
    lemma_scan_step, next_run, outcome, row_marks, row_win, scanned, top_row, verdict, win_state,
};

verus! {

/// A game of Connect Four. `board` holds the columns from left to right and
/// each column its tokens from the bottom up.
pub struct ConnectFourGame {
    pub board: Vec<Vec<Player>>,
}

impl View for ConnectFourGame {
    type V = Grid;

    open spec fn view(&self) -> Grid {
        Seq::new(self.board.len() as nat, |c: int| self.board[c]@)
    }
}

impl ConnectFourGame {
    /// The board has seven columns of at most six tokens each.
    pub open spec fn wf(&self) -> bool {
        well_formed(self@)
    }

    /// A game with an empty board.
    pub fn new() -> (game: Self)
        ensures
            game.wf(),
            game@ == empty_grid(),
    {
        let mut board: Vec<Vec<Player>> = Vec::new();
        while board.len() < BOARD_WIDTH
            invariant
                board.len() <= BOARD_WIDTH,
                forall|c: int| 0 <= c < board.len() ==> (#[trigger] board[c])@ == Seq::<Player>::empty(),
            decreases BOARD_WIDTH - board.len(),
        {
            board.push(Vec::new());
        }
        ConnectFourGame { board }
    }

    /// Whether the board has seven columns of at most six tokens each. The
    /// field `board` is open to callers, so one that has written to it can
    /// ask before it plays on.
    pub fn is_well_formed(&self) -> (ok: bool)
        ensures
            ok == self.wf(),
    {
        if self.board.len() != BOARD_WIDTH {
            return false;
        }
        let mut col: usize = 0;
        while col < BOARD_WIDTH
            invariant
                self.board.len() == BOARD_WIDTH,
                col <= BOARD_WIDTH,
                forall|c: int| 0 <= c < col ==> (#[trigger] self@[c]).len() <= BOARD_HEIGHT,
            decreases BOARD_WIDTH - col,
        {
            if self.board[col].len() > BOARD_HEIGHT {
                assert(self@[col as int].len() > BOARD_HEIGHT);
                return false;
            }
            col += 1;
        }
        true
    }

    /// Whether column `col` holds as many tokens as the board is high.
    pub fn is_column_full(&self, col: usize) -> (full: bool)
        requires
            self.wf(),
            col < BOARD_WIDTH,
        ensures
            full == column_full(self@, col as int),
    {
        self.board[col].len() >= BOARD_HEIGHT
    }

    /// Whether every column is full.
    pub fn is_board_full(&self) -> (full: bool)
        requires
            self.wf(),
        ensures
            full == board_full(self@),
    {
        let mut col: usize = 0;
        while col < BOARD_WIDTH
            invariant
                self.wf(),
                col <= BOARD_WIDTH,
                forall|c: int| 0 <= c < col ==> #[trigger] column_full(self@, c),
            decreases BOARD_WIDTH - col,
        {
            if self.board[col].len() != BOARD_HEIGHT {
                assert(!column_full(self@, col as int));
                return false;
            }
            col += 1;
        }
        true
    }

    /// Drops a token of `player` into column `col`. The token lands on top
    /// of the column; a full column refuses it and the board stays as it was.
    pub fn place(&mut self, player: Player, col: usize) -> (result: Result<(), PlaceError>)
        requires
            old(self).wf(),
            col < BOARD_WIDTH,
        ensures
            final(self).wf(),
            final(self)@ == drop_token(old(self)@, player, col as int),
            result == (if column_full(old(self)@, col as int) {
                Err::<(), PlaceError>(PlaceError::ColumnFull)
            } else {
                Ok::<(), PlaceError>(())
            }),
            result is Ok ==> just_played(final(self)@, player, col as int),
    {
        if self.is_column_full(col) {
            return Err(PlaceError::ColumnFull);
        }
        self.board[col].push(player);
        proof {
            let before = old(self)@;
            let after = self@;
            assert(after[col as int] == before[col as int].push(player));
            assert forall|c: int| 0 <= c < after.len() && c != col implies after[c] == before[c] by {
                assert(self.board[c] == old(self).board[c]);
            }
            assert(after =~= before.update(col as int, before[col as int].push(player)));
        }
        Ok(())
    }

    /// Checks whether `player` has four in a row anywhere on one of the four
    /// lines through the token that `player` just dropped into column `col`,
    /// and otherwise whether the board is full.
    pub fn check_win(&self, player: Player, col: usize) -> (state: GameState)
        requires
            self.wf(),
            just_played(self@, player, col as int),
        ensures
            state == outcome(self@, player, col as int),
    {
        let by_row = self.check_row_win(player, col);
        if by_row != GameState::InProgress {
            return by_row;
        }
        let by_column = self.check_column_win(player, col);
        if by_column != GameState::InProgress {
            return by_column;
        }
        let by_forward = self.check_forward_diagonal_win(player, col);
        if by_forward != GameState::InProgress {
            return by_forward;
        }
        let by_back = self.check_back_diagonal_win(player, col);
        if by_back != GameState::InProgress {
            return by_back;
        }
        if self.is_board_full() {
            return GameState::Tie;
        }
        GameState::InProgress
    }

    /// Checks column `col` for four tokens of `player` on top of each other.
    pub fn check_column_win(&self, player: Player, col: usize) -> (state: GameState)
        requires
            self.wf(),
            just_played(self@, player, col as int),
        ensures
            state == verdict(column_win(self@, col as int, player), player),
    {
        let height = self.board[col].len();
        let ghost marks = column_marks(self@, col as int, player);
        let mut consecutive: usize = 0;
        let mut seen: usize = 0;
        proof {
            lemma_column_marks(self@, col as int, player);
        }
        while seen < height
            invariant
                self.wf(),
                col < BOARD_WIDTH,
                height == self@[col as int].len(),
                marks == column_marks(self@, col as int, player),
                has_four(marks) == column_win(self@, col as int, player),
                scanned(marks, seen as int, consecutive as int),
            decreases height - seen,
        {
            let row = height - 1 - seen;
            proof {
                lemma_scan_step(marks, seen as int, consecutive as int);
            }
            consecutive = count_run(consecutive, self.has_token(col, row, player));
            if consecutive >= WIN_LENGTH {
                return winner(player);
            }
            seen += 1;
        }
        proof {
            lemma_scan_done(marks, consecutive as int);
        }
        GameState::InProgress
    }

    /// Checks the row of the topmost token of column `col` for four tokens
    /// of `player` side by side. A column that does not reach up to that row
    /// breaks a run.
    pub fn check_row_win(&self, player: Player, col: usize) -> (state: GameState)
        requires
            self.wf(),
            just_played(self@, player, col as int),
        ensures
            state == verdict(row_win(self@, top_row(self@, col as int), player), player),
    {
        let row = self.board[col].len() - 1;
        let ghost marks = row_marks(self@, row as int, player);
        let mut consecutive: usize = 0;
        let mut seen: usize = 0;
        proof {
            lemma_row_marks(self@, row as int, player);
        }
        while seen < BOARD_WIDTH
            invariant
                self.wf(),
                marks == row_marks(self@, row as int, player),
                row == top_row(self@, col as int),
                has_four(marks) == row_win(self@, row as int, player),
                scanned(marks, seen as int, consecutive as int),
            decreases BOARD_WIDTH - seen,
        {
            proof {
                lemma_scan_step(marks, seen as int, consecutive as int);
            }
            consecutive = count_run(consecutive, self.has_token(seen, row, player));
            if consecutive >= WIN_LENGTH {
                return winner(player);
            }
            seen += 1;
        }
        proof {
            lemma_scan_done(marks, consecutive as int);
        }
        GameState::InProgress
    }

    /// Checks the diagonal that falls to the right through the topmost token
    /// of column `col`. The scan starts where that diagonal meets the right
    /// or the lower edge of the board and climbs to the left.
    pub fn check_back_diagonal_win(&self, player: Player, col: usize) -> (state: GameState)
        requires
            self.wf(),
            just_played(self@, player, col as int),
        ensures
            state == verdict(
                back_diagonal_win(self@, col as int, top_row(self@, col as int), player),
                player,
            ),
    {
        let placed_row = self.board[col].len() - 1;
        let sum = placed_row + col;
        let first_row: usize = if sum > BOARD_WIDTH - 1 {
            sum - (BOARD_WIDTH - 1)
        } else {
            0
        };
        let first_col: usize = if sum < BOARD_WIDTH - 1 {
            sum
        } else {
            BOARD_WIDTH - 1
        };
        let length: usize = if first_col + 1 < BOARD_HEIGHT - first_row {
            first_col + 1
        } else {
            BOARD_HEIGHT - first_row
        };
        let ghost marks = back_marks(self@, first_col as int, first_row as int, length as nat, player);
        let mut consecutive: usize = 0;
        let mut seen: usize = 0;
        proof {
            lemma_back_marks(
                self@,
                col as int,
                placed_row as int,
                first_col as int,
                first_row as int,
                length as nat,
                player,
            );
        }
        while seen < length
            invariant
                self.wf(),
                first_col < BOARD_WIDTH,
                length <= first_col + 1,
                first_row + length <= BOARD_HEIGHT,
                marks == back_marks(self@, first_col as int, first_row as int, length as nat, player),
                placed_row == top_row(self@, col as int),
                has_four(marks) == back_diagonal_win(self@, col as int, placed_row as int, player),
                scanned(marks, seen as int, consecutive as int),
            decreases length - seen,
        {
            proof {
                lemma_scan_step(marks, seen as int, consecutive as int);
            }
            let column = first_col - seen;
            let row = first_row + seen;
            consecutive = count_run(consecutive, self.has_token(column, row, player));
            if consecutive >= WIN_LENGTH {
                return winner(player);
            }
            seen += 1;
        }
        proof {
            lemma_scan_done(marks, consecutive as int);
        }
        GameState::InProgress
    }

    /// Checks the diagonal that rises to the right through the topmost token
    /// of column `col`. The scan starts where that diagonal meets the left
    /// or the lower edge of the board and climbs to the right.
    pub fn check_forward_diagonal_win(&self, player: Player, col: usize) -> (state: GameState)
        requires
            self.wf(),
            just_played(self@, player, col as int),
        ensures
            state == verdict(
                forward_diagonal_win(self@, col as int, top_row(self@, col as int), player),
                player,
            ),
    {
        let placed_row = self.board[col].len() - 1;
        let first_row: usize = if placed_row > col {
            placed_row - col
        } else {
            0
        };
        let first_col: usize = if placed_row < col {
            col - placed_row
        } else {
            0
        };
        let ghost length: nat = if BOARD_WIDTH - first_col < BOARD_HEIGHT - first_row {
            (BOARD_WIDTH - first_col) as nat
        } else {
            (BOARD_HEIGHT - first_row) as nat
        };
        let ghost marks = forward_marks(self@, first_col as int, first_row as int, length, player);
        let mut row = first_row;
        let mut column = first_col;
        let mut consecutive: usize = 0;
        proof {
            lemma_forward_marks(
                self@,
                col as int,
                placed_row as int,
                first_col as int,
                first_row as int,
                length,
                player,
            );
        }
        while row < BOARD_HEIGHT && column < BOARD_WIDTH
            invariant
                self.wf(),
                first_col <= column <= BOARD_WIDTH,
                first_row <= row <= BOARD_HEIGHT,
                column - first_col == row - first_row,
                first_col + length <= BOARD_WIDTH,
                first_row + length <= BOARD_HEIGHT,
                first_col + length == BOARD_WIDTH || first_row + length == BOARD_HEIGHT,
                marks == forward_marks(self@, first_col as int, first_row as int, length, player),
                placed_row == top_row(self@, col as int),
                has_four(marks) == forward_diagonal_win(
                    self@,
                    col as int,
                    placed_row as int,
                    player,
                ),
                scanned(marks, column - first_col, consecutive as int),
            decreases BOARD_HEIGHT - row,
        {
            proof {
                lemma_scan_step(marks, column - first_col, consecutive as int);
            }
            consecutive = count_run(consecutive, self.has_token(column, row, player));
            if consecutive >= WIN_LENGTH {
                return winner(player);
            }
            row += 1;
            column += 1;
        }
        proof {
            lemma_scan_done(marks, consecutive as int);
        }
        GameState::InProgress
    }

    /// Whether the cell `(col, row)` exists and holds a token of `player`.
    pub fn has_token(&self, col: usize, row: usize, player: Player) -> (found: bool)
        ensures
            found == holds(self@, col as int, row as int, player),
    {
        col < self.board.len() && row < self.board[col].len() && self.board[col][row] == player
    }
}

/// The length of the current run after one more cell: one more where the
/// cell matched, zero where it did not.
pub fn count_run(consecutive: usize, matched: bool) -> (run: usize)
    requires
        consecutive < usize::MAX,
    ensures
        run == next_run(consecutive as int, matched),
{
    if matched {
        consecutive + 1
    } else {
        0
    }
}

/// The state that records a win of `player`.
pub fn winner(player: Player) -> (state: GameState)
    ensures
        state == win_state(player),
{
    match player {
        Player::One => GameState::WinByPlayer1,
        Player::Two => GameState::WinByPlayer2,
    }
}

} // verus!
