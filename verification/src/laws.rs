//! Properties of the engine that hold for every board and every game.

use vstd::prelude::*;
use crate::board::{
    board_full, column_full, drop_token, empty_grid, holds, just_played, well_formed, GameState,
    Grid, Player, BOARD_HEIGHT, BOARD_WIDTH,
};
use crate::game::ConnectFourGame;
use crate::lines::{
    back_diagonal_win, column_win, forward_diagonal_win, four_from, outcome, row_win, top_row,
    verdict, win_state,
};

verus! {

/// A move: the player and the column the token is dropped into.
pub struct Move {
    pub player: Player,
    pub col: int,
}

/// The grid after the given moves were played in order on an empty board.
/// A move into a full column changes nothing.
pub open spec fn play(moves: Seq<Move>) -> Grid
    decreases moves.len(),
{
    if moves.len() == 0 {
        empty_grid()
    } else {
        drop_token(play(moves.drop_last()), moves.last().player, moves.last().col)
    }
}

/// Every move names a column of the board.
pub open spec fn moves_in_range(moves: Seq<Move>) -> bool {
    forall|i: int| 0 <= i < moves.len() ==> 0 <= (#[trigger] moves[i]).col < BOARD_WIDTH
}

/// Dropping a token into a column of a well-formed grid gives a well-formed
/// grid: no column grows beyond the height of the board.
pub proof fn lemma_drop_keeps_well_formed(g: Grid, player: Player, col: int)
    requires
        well_formed(g),
        0 <= col < BOARD_WIDTH,
    ensures
        well_formed(drop_token(g, player, col)),
{
}

/// Whatever moves are played from the empty board, in whatever order, no
/// column ever holds more than six tokens.
pub proof fn lemma_columns_never_overflow(moves: Seq<Move>)
    requires
        moves_in_range(moves),
    ensures
        well_formed(play(moves)),
        forall|c: int| 0 <= c < BOARD_WIDTH ==> (#[trigger] play(moves)[c]).len() <= BOARD_HEIGHT,
    decreases moves.len(),
{
    if moves.len() > 0 {
        lemma_columns_never_overflow(moves.drop_last());
        lemma_drop_keeps_well_formed(play(moves.drop_last()), moves.last().player, moves.last().col);
    }
}

/// A token dropped into a full column leaves every column as it was, in
/// length and in contents.
pub proof fn lemma_full_column_refuses(g: Grid, player: Player, col: int)
    requires
        column_full(g, col),
    ensures
        drop_token(g, player, col) == g,
{
}

/// The empty board has seven columns of length zero and is not full.
pub proof fn lemma_empty_board_not_full()
    ensures
        well_formed(empty_grid()),
        forall|c: int| 0 <= c < BOARD_WIDTH ==> (#[trigger] empty_grid()[c]).len() == 0,
        !board_full(empty_grid()),
{
    assert(!column_full(empty_grid(), 0));
}

/// A board is full as soon as each of its seven columns has reached length
/// six, and only then.
pub proof fn lemma_full_when_all_columns_full(g: Grid)
    requires
        well_formed(g),
    ensures
        board_full(g) <==> forall|c: int| 0 <= c < BOARD_WIDTH ==> (#[trigger] g[c]).len() == BOARD_HEIGHT,
{
    if board_full(g) {
        assert forall|c: int| 0 <= c < BOARD_WIDTH implies (#[trigger] g[c]).len() == BOARD_HEIGHT by {
            assert(column_full(g, c));
        }
    }
}

/// The classification does not depend on which scan finds the line: where
/// any one of the four scans reports a win, the game's state is that very
/// report, whatever the other three say and in whatever order they are
/// asked.
pub proof fn lemma_any_scan_decides(g: Grid, player: Player, col: int)
    requires
        well_formed(g),
        just_played(g, player, col),
    ensures
        row_win(g, top_row(g, col), player) ==> outcome(g, player, col) == verdict(
            row_win(g, top_row(g, col), player),
            player,
        ),
        column_win(g, col, player) ==> outcome(g, player, col) == verdict(
            column_win(g, col, player),
            player,
        ),
        forward_diagonal_win(g, col, top_row(g, col), player) ==> outcome(g, player, col)
            == verdict(forward_diagonal_win(g, col, top_row(g, col), player), player),
        back_diagonal_win(g, col, top_row(g, col), player) ==> outcome(g, player, col) == verdict(
            back_diagonal_win(g, col, top_row(g, col), player),
            player,
        ),
        outcome(g, player, col) == win_state(player) || outcome(g, player, col) == GameState::Tie
            || outcome(g, player, col) == GameState::InProgress,
        outcome(g, player, col) != win_state(other(player)),
{
}

/// The opponent of `player`.
pub open spec fn other(player: Player) -> Player {
    match player {
        Player::One => Player::Two,
        Player::Two => Player::One,
    }
}

/// The classification is a function of the tokens on the board, the player
/// and the column alone: two games whose boards hold the same tokens are
/// classified alike, so asking again about an unchanged board gives the
/// same answer.
pub proof fn lemma_classification_repeatable(
    first: ConnectFourGame,
    second: ConnectFourGame,
    player: Player,
    col: int,
)
    requires
        first@ =~~= second@,
    ensures
        outcome(first@, player, col) == outcome(second@, player, col),
{
}

/// The four directions in which a line can run: up a column, along a row,
/// up a rising diagonal and up a falling diagonal.
pub open spec fn is_direction(dcol: int, drow: int) -> bool {
    ||| dcol == 0 && drow == 1
    ||| dcol == 1 && drow == 0
    ||| dcol == 1 && drow == 1
    ||| dcol == -1 && drow == 1
}

/// No line of four tokens of `player` anywhere on the grid.
pub open spec fn no_four(g: Grid, player: Player) -> bool {
    forall|col: int, row: int, dcol: int, drow: int|
        is_direction(dcol, drow) ==> !#[trigger] four_from(g, col, row, dcol, drow, player)
}

/// One of the four cells that start at `(col, row)` and advance by
/// `(dcol, drow)` is the cell `(at_col, at_row)`.
pub open spec fn passes_through(
    col: int,
    row: int,
    dcol: int,
    drow: int,
    at_col: int,
    at_row: int,
) -> bool {
    ||| col == at_col && row == at_row
    ||| col + dcol == at_col && row + drow == at_row
    ||| col + 2 * dcol == at_col && row + 2 * drow == at_row
    ||| col + 3 * dcol == at_col && row + 3 * drow == at_row
}

/// Only the token placed last can complete a line: if `player` had no four
/// in a row before dropping a token into column `col`, every four in a row
/// that `player` has afterwards passes through the new token.
pub proof fn lemma_new_line_passes_through_new_token(
    before: Grid,
    player: Player,
    col: int,
    from_col: int,
    from_row: int,
    dcol: int,
    drow: int,
)
    requires
        well_formed(before),
        0 <= col < BOARD_WIDTH,
        !column_full(before, col),
        no_four(before, player),
        is_direction(dcol, drow),
        four_from(drop_token(before, player, col), from_col, from_row, dcol, drow, player),
    ensures
        passes_through(from_col, from_row, dcol, drow, col, before[col].len() as int),
{
    let after = drop_token(before, player, col);
    let row = before[col].len() as int;
    assert forall|x: int, y: int| holds(after, x, y, player) && !(x == col && y == row) implies holds(
        before,
        x,
        y,
        player,
    ) by {}
    if !passes_through(from_col, from_row, dcol, drow, col, row) {
        assert(four_from(before, from_col, from_row, dcol, drow, player));
    }
}

} // verus!
