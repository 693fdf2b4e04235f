//! The text that stands for a cell when the board is shown.

use vstd::prelude::*;
use crate::board::Player;

verus! {

/// The text of a cell: a coloured disc for a token, two blanks for a cell
/// without one. Each is two columns wide on a terminal.
pub open spec fn token_text(cell: Option<Player>) -> Seq<char> {
    match cell {
        Some(Player::One) => "🟡"@,
        Some(Player::Two) => "🔴"@,
        None => "  "@,
    }
}

/// The text that shows `cell`.
pub fn token(cell: Option<Player>) -> (text: String)
    ensures
        text@ == token_text(cell),
{
    match cell {
        Some(Player::One) => "🟡".to_string(),
        Some(Player::Two) => "🔴".to_string(),
        None => "  ".to_string(),
    }
}

} // verus!
