//! The tokens, the game states and the mathematical model of the board.

use vstd::prelude::*;

verus! {

/// Number of columns of the board.
pub const BOARD_WIDTH: usize = 7;

/// Number of rows of the board, the most tokens a column can hold.
pub const BOARD_HEIGHT: usize = 6;

/// Number of consecutive tokens of one player that win the game.
pub const WIN_LENGTH: usize = 4;

/// One of the two players; a token on the board is the player who dropped it.
#[derive(Clone, Copy, Debug, PartialEq, Eq, Structural)]
pub enum Player {
    One,
    Two,
}

/// How the game stands after a move.
#[derive(Clone, Copy, Debug, PartialEq, Eq, Structural)]
pub enum GameState {
    InProgress,
    WinByPlayer1,
    WinByPlayer2,
    Tie,
}

/// Why a token could not be placed.
#[derive(Clone, Copy, Debug, PartialEq, Eq, Structural)]
pub enum PlaceError {
    /// The chosen column already holds `BOARD_HEIGHT` tokens.
    ColumnFull,
}

/// The board as a mathematical value: the columns from left to right, each
/// column listing its tokens from the bottom up. A cell `(col, row)` exists
/// only while `row` is below the length of column `col`.
pub type Grid = Seq<Seq<Player>>;

/// A grid has the board's width and no column is higher than the board.
pub open spec fn well_formed(g: Grid) -> bool {
    &&& g.len() == BOARD_WIDTH
    &&& forall|c: int| 0 <= c < g.len() ==> (#[trigger] g[c]).len() <= BOARD_HEIGHT
}

/// The board before the first move: seven columns without a token.
pub open spec fn empty_grid() -> Grid {
    Seq::new(BOARD_WIDTH as nat, |c: int| Seq::<Player>::empty())
}

/// The cell `(col, row)` exists and holds a token of `player`.
pub open spec fn holds(g: Grid, col: int, row: int, player: Player) -> bool {
    &&& 0 <= col < g.len()
    &&& 0 <= row < g[col].len()
    &&& g[col][row] == player
}

/// Column `col` can take no further token.
pub open spec fn column_full(g: Grid, col: int) -> bool {
    g[col].len() == BOARD_HEIGHT
}

/// Every column is full.
pub open spec fn board_full(g: Grid) -> bool {
    forall|c: int| 0 <= c < g.len() ==> #[trigger] column_full(g, c)
}

/// The grid after `player` drops a token into column `col`: the token lands
/// on top of the column, or nothing changes when the column is full.
pub open spec fn drop_token(g: Grid, player: Player, col: int) -> Grid {
    if column_full(g, col) {
        g
    } else {
        g.update(col, g[col].push(player))
    }
}

/// The last token of column `col` was dropped by `player`: the state in
/// which the game is right after `player` moved in that column.
pub open spec fn just_played(g: Grid, player: Player, col: int) -> bool {
    &&& 0 <= col < g.len()
    &&& g[col].len() > 0
    &&& g[col].last() == player
}

} // verus!
