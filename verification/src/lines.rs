//! What it means to win: four tokens of one player in a row along a column,
//! a row or a diagonal, and the bookkeeping of a scan that looks for them.

use vstd::prelude::*;
use crate::board::{
    board_full, holds, well_formed, GameState, Grid, Player, BOARD_HEIGHT, BOARD_WIDTH,
};

verus! {

/// The state in which `player` has won.
pub open spec fn win_state(player: Player) -> GameState {
    match player {
        Player::One => GameState::WinByPlayer1,
        Player::Two => GameState::WinByPlayer2,
    }
}

/// The four cells that start at `(col, row)` and advance by `(dcol, drow)`
/// all hold a token of `player`.
pub open spec fn four_from(g: Grid, col: int, row: int, dcol: int, drow: int, player: Player) -> bool {
    &&& holds(g, col, row, player)
    &&& holds(g, col + dcol, row + drow, player)
    &&& holds(g, col + 2 * dcol, row + 2 * drow, player)
    &&& holds(g, col + 3 * dcol, row + 3 * drow, player)
}

/// Column `col` has four tokens of `player` on top of each other.
pub open spec fn column_win(g: Grid, col: int, player: Player) -> bool {
    exists|row: int| #[trigger] four_from(g, col, row, 0, 1, player)
}

/// Row `row` has four tokens of `player` side by side.
pub open spec fn row_win(g: Grid, row: int, player: Player) -> bool {
    exists|col: int| #[trigger] four_from(g, col, row, 1, 0, player)
}

/// The diagonal that rises to the right through `(col, row)` has four
/// tokens of `player` in a row. The cells of that diagonal are those with
/// the same difference of row and column.
pub open spec fn forward_diagonal_win(g: Grid, col: int, row: int, player: Player) -> bool {
    exists|c: int, r: int| r - c == row - col && #[trigger] four_from(g, c, r, 1, 1, player)
}

/// The diagonal that falls to the right through `(col, row)` has four
/// tokens of `player` in a row. The cells of that diagonal are those with
/// the same sum of row and column.
pub open spec fn back_diagonal_win(g: Grid, col: int, row: int, player: Player) -> bool {
    exists|c: int, r: int| r + c == row + col && #[trigger] four_from(g, c, r, -1, 1, player)
}

/// The row of the topmost token of column `col`.
pub open spec fn top_row(g: Grid, col: int) -> int {
    g[col].len() - 1
}

/// What a single scan reports: a win of `player` where it found four in a
/// row, otherwise that the game goes on.
pub open spec fn verdict(found: bool, player: Player) -> GameState {
    if found {
        win_state(player)
    } else {
        GameState::InProgress
    }
}

/// One of the four lines through the topmost token of column `col` has four
/// tokens of `player` in a row.
pub open spec fn line_win(g: Grid, player: Player, col: int) -> bool {
    ||| row_win(g, top_row(g, col), player)
    ||| column_win(g, col, player)
    ||| forward_diagonal_win(g, col, top_row(g, col), player)
    ||| back_diagonal_win(g, col, top_row(g, col), player)
}

/// How the game stands after `player` moved in column `col`: won where a
/// line through the new token has four in a row, tied where there is no such
/// line and the board is full, in progress otherwise.
pub open spec fn outcome(g: Grid, player: Player, col: int) -> GameState {
    if line_win(g, player, col) {
        win_state(player)
    } else if board_full(g) {
        GameState::Tie
    } else {
        GameState::InProgress
    }
}

/// Four consecutive marks starting at `start`.
pub open spec fn four_marked(marks: Seq<bool>, start: int) -> bool {
    &&& 0 <= start
    &&& start + 4 <= marks.len()
    &&& marks[start]
    &&& marks[start + 1]
    &&& marks[start + 2]
    &&& marks[start + 3]
}

/// Somewhere in `marks` four consecutive entries are set.
pub open spec fn has_four(marks: Seq<bool>) -> bool {
    exists|start: int| #[trigger] four_marked(marks, start)
}

/// The state of a scan that has read the first `seen` marks without finding
/// four in a row and counts `run` set marks at the end of what it has read.
pub open spec fn scanned(marks: Seq<bool>, seen: int, run: int) -> bool {
    &&& 0 <= run <= seen <= marks.len()
    &&& run < 4
    &&& forall|j: int| seen - run <= j < seen ==> #[trigger] marks[j]
    &&& run < seen ==> !marks[seen - run - 1]
    &&& forall|start: int| start + 4 <= seen ==> !#[trigger] four_marked(marks, start)
}

/// The run counter after one more mark: one longer on a set mark, back to
/// zero on a clear one.
pub open spec fn next_run(run: int, mark: bool) -> int {
    if mark {
        run + 1
    } else {
        0
    }
}

/// Reading one more mark either completes four in a row or leaves the scan
/// in a good state one mark further on.
pub proof fn lemma_scan_step(marks: Seq<bool>, seen: int, run: int)
    requires
        scanned(marks, seen, run),
        seen < marks.len(),
    ensures
        next_run(run, marks[seen]) >= 4 ==> has_four(marks),
        next_run(run, marks[seen]) < 4 ==> scanned(marks, seen + 1, next_run(run, marks[seen])),
{
    let next = next_run(run, marks[seen]);
    if next >= 4 {
        assert(marks[seen - 3] && marks[seen - 2] && marks[seen - 1]);
        assert(four_marked(marks, seen - 3));
    } else {
        assert forall|start: int| start + 4 <= seen + 1 implies !#[trigger] four_marked(
            marks,
            start,
        ) by {
            if start + 4 == seen + 1 && start >= 0 {
                if marks[seen] {
                    if run < seen {
                        assert(!marks[seen - run - 1]);
                    }
                }
            }
        }
    }
}

/// A scan that has read every mark without finding four in a row shows that
/// there are none.
pub proof fn lemma_scan_done(marks: Seq<bool>, run: int)
    requires
        scanned(marks, marks.len() as int, run),
    ensures
        !has_four(marks),
{
}

/// Row `row` read from left to right: one mark per column, set where the
/// cell holds a token of `player`.
pub open spec fn row_marks(g: Grid, row: int, player: Player) -> Seq<bool> {
    Seq::new(BOARD_WIDTH as nat, |k: int| holds(g, k, row, player))
}

/// Column `col` read from its topmost token down to the bottom.
pub open spec fn column_marks(g: Grid, col: int, player: Player) -> Seq<bool> {
    Seq::new(g[col].len(), |k: int| holds(g, col, g[col].len() - 1 - k, player))
}

/// The `len` cells that start at `(col, row)` and rise to the right.
pub open spec fn forward_marks(g: Grid, col: int, row: int, len: nat, player: Player) -> Seq<bool> {
    Seq::new(len, |k: int| holds(g, col + k, row + k, player))
}

/// The `len` cells that start at `(col, row)` and rise to the left.
pub open spec fn back_marks(g: Grid, col: int, row: int, len: nat, player: Player) -> Seq<bool> {
    Seq::new(len, |k: int| holds(g, col - k, row + k, player))
}

/// A row has four in a row exactly where its marks have.
pub proof fn lemma_row_marks(g: Grid, row: int, player: Player)
    requires
        well_formed(g),
    ensures
        has_four(row_marks(g, row, player)) <==> row_win(g, row, player),
{
    let marks = row_marks(g, row, player);
    if has_four(marks) {
        let start = choose|start: int| #[trigger] four_marked(marks, start);
        assert(four_from(g, start, row, 1, 0, player));
    }
    if row_win(g, row, player) {
        let col = choose|col: int| #[trigger] four_from(g, col, row, 1, 0, player);
        assert(four_marked(marks, col));
    }
}

/// A column has four in a row exactly where its marks have.
pub proof fn lemma_column_marks(g: Grid, col: int, player: Player)
    requires
        well_formed(g),
        0 <= col < g.len(),
    ensures
        has_four(column_marks(g, col, player)) <==> column_win(g, col, player),
{
    let marks = column_marks(g, col, player);
    let top = g[col].len() - 1;
    if has_four(marks) {
        let start = choose|start: int| #[trigger] four_marked(marks, start);
        assert(four_from(g, col, top - start - 3, 0, 1, player));
    }
    if column_win(g, col, player) {
        let row = choose|row: int| #[trigger] four_from(g, col, row, 0, 1, player);
        assert(four_marked(marks, top - row - 3));
    }
}

/// Where the scan of a rising diagonal starts at the board's left or lower
/// edge and runs to its right or upper edge, the diagonal has four in a row
/// exactly where the marks have.
pub proof fn lemma_forward_marks(g: Grid, col: int, row: int, c0: int, r0: int, len: nat, player: Player)
    requires
        well_formed(g),
        0 <= c0 <= BOARD_WIDTH,
        0 <= r0 <= BOARD_HEIGHT,
        c0 == 0 || r0 == 0,
        r0 - c0 == row - col,
        c0 + len == BOARD_WIDTH || r0 + len == BOARD_HEIGHT,
        c0 + len <= BOARD_WIDTH,
        r0 + len <= BOARD_HEIGHT,
    ensures
        has_four(forward_marks(g, c0, r0, len, player)) <==> forward_diagonal_win(g, col, row, player),
{
    let marks = forward_marks(g, c0, r0, len, player);
    if has_four(marks) {
        let start = choose|start: int| #[trigger] four_marked(marks, start);
        assert(four_from(g, c0 + start, r0 + start, 1, 1, player));
    }
    if forward_diagonal_win(g, col, row, player) {
        let (c, r) = choose|c: int, r: int|
            r - c == row - col && #[trigger] four_from(g, c, r, 1, 1, player);
        assert(g[c + 3].len() <= BOARD_HEIGHT);
        assert(four_marked(marks, c - c0));
    }
}

/// Where the scan of a falling diagonal starts at the board's right or lower
/// edge and runs to its left or upper edge, the diagonal has four in a row
/// exactly where the marks have.
pub proof fn lemma_back_marks(g: Grid, col: int, row: int, c0: int, r0: int, len: nat, player: Player)
    requires
        well_formed(g),
        -1 <= c0 < BOARD_WIDTH,
        0 <= r0 <= BOARD_HEIGHT,
        c0 == BOARD_WIDTH - 1 || r0 == 0,
        r0 + c0 == row + col,
        c0 - len == -1 || r0 + len == BOARD_HEIGHT,
        c0 - len >= -1,
        r0 + len <= BOARD_HEIGHT,
    ensures
        has_four(back_marks(g, c0, r0, len, player)) <==> back_diagonal_win(g, col, row, player),
{
    let marks = back_marks(g, c0, r0, len, player);
    if has_four(marks) {
        let start = choose|start: int| #[trigger] four_marked(marks, start);
        assert(four_from(g, c0 - start, r0 + start, -1, 1, player));
    }
    if back_diagonal_win(g, col, row, player) {
        let (c, r) = choose|c: int, r: int|
            r + c == row + col && #[trigger] four_from(g, c, r, -1, 1, player);
        assert(g[c - 3].len() <= BOARD_HEIGHT);
        assert(four_marked(marks, c0 - c));
    }
}

} // verus!
