use connect_four::{ConnectFourGame, GameState, PlaceError, Player, BOARD_HEIGHT, BOARD_WIDTH};

/// A column written with the numbers of the players, bottom first.
fn column(numbers: &[u8]) -> Vec<Player> {
    let mut tokens = Vec::new();
    for number in numbers {
        match number {
            1 => tokens.push(Player::One),
            2 => tokens.push(Player::Two),
            _ => panic!("no such player"),
        }
    }
    tokens
}

/// A board written column by column, leftmost first.
fn columns(board: &[&[u8]]) -> Vec<Vec<Player>> {
    let mut all = Vec::new();
    for numbers in board {
        all.push(column(numbers));
    }
    all
}

#[test]
fn test_new_board_is_empty() {
    let game = ConnectFourGame::new();
    assert_eq!(game.board.len(), BOARD_WIDTH);
    for column in game.board {
        assert_eq!(column.len(), 0);
    }
}

#[test]
fn test_place_success() {
    let mut game = ConnectFourGame::new();
    assert_eq!(game.place(Player::One, 0), Ok(()));
    assert_eq!(game.board[0].len(), 1);
    assert_eq!(game.board[0][0], Player::One);
}

#[test]
fn test_invalid_place() {
    let mut game = ConnectFourGame::new();
    for _i in 0..BOARD_HEIGHT {
        assert_eq!(game.place(Player::One, 0), Ok(()));
    }
    assert_eq!(game.place(Player::One, 0), Err(PlaceError::ColumnFull));
}

#[test]
fn test_column_not_full() {
    let game = ConnectFourGame::new();
    assert!(!game.is_column_full(0));
}

#[test]
fn test_column_full() {
    let mut game = ConnectFourGame::new();
    game.board = vec![vec![Player::One; BOARD_HEIGHT]; BOARD_WIDTH];
    assert!(game.is_column_full(0));
}

#[test]
fn test_board_not_full() {
    let game = ConnectFourGame::new();
    assert!(!game.is_board_full());
}

#[test]
fn test_board_full() {
    let mut game = ConnectFourGame::new();
    game.board = vec![vec![Player::One; BOARD_HEIGHT]; BOARD_WIDTH];
    assert!(game.is_board_full());
}

#[test]
fn test_column_win_success() {
    let mut game = ConnectFourGame::new();
    game.board[0] = column(&[2, 1, 1, 1, 1]);
    assert_eq!(game.check_column_win(Player::One, 0), GameState::WinByPlayer1);
}

#[test]
fn test_no_column_win() {
    let mut game = ConnectFourGame::new();
    game.board[0] = column(&[2, 1, 2, 1]);
    assert_eq!(game.check_column_win(Player::One, 0), GameState::InProgress);
}

#[test]
fn test_row_win_with_blanks() {
    let mut game = ConnectFourGame::new();
    game.board = vec![column(&[1]); BOARD_WIDTH];
    game.board[0] = column(&[]);
    game.board[2] = column(&[]);
    assert_eq!(game.check_row_win(Player::One, 4), GameState::WinByPlayer1);
}

#[test]
fn test_row_win() {
    let mut game = ConnectFourGame::new();
    game.board = vec![column(&[1]); BOARD_WIDTH];
    assert_eq!(game.check_row_win(Player::One, 0), GameState::WinByPlayer1);
}

#[test]
fn test_no_row_win_with_blanks() {
    let mut game = ConnectFourGame::new();
    game.board = columns(&[
        &[1],
        &[1, 2],
        &[],
        &[2, 1],
        &[1, 2, 1, 2],
        &[1, 1, 2, 1],
        &[2],
    ]);
    assert_eq!(game.check_row_win(Player::One, 3), GameState::InProgress);
}

#[test]
fn test_no_row_win() {
    let mut game = ConnectFourGame::new();
    game.board = columns(&[
        &[1],
        &[1, 2],
        &[],
        &[2, 1],
        &[1, 2, 1, 2],
        &[1, 1, 2, 1],
        &[2],
    ]);
    assert_eq!(game.check_row_win(Player::Two, 6), GameState::InProgress);
}

#[test]
fn test_forward_diagonal_win() {
    let mut game = ConnectFourGame::new();
    game.board = columns(&[
        &[1],
        &[2, 2],
        &[2],
        &[2, 1],
        &[1, 2, 1, 2],
        &[1, 1, 2, 1],
        &[2, 1, 2, 1, 1],
    ]);
    assert_eq!(game.check_forward_diagonal_win(Player::One, 3), GameState::WinByPlayer1);
}

#[test]
fn test_forward_diagonal_win_high() {
    let mut game = ConnectFourGame::new();
    game.board = columns(&[
        &[1, 2],
        &[2, 2, 2],
        &[2, 1, 2, 2],
        &[2, 1, 1, 1, 2],
        &[1, 2, 1, 2],
        &[1, 1],
        &[2, 1, 2, 1, 1],
    ]);
    assert_eq!(game.check_forward_diagonal_win(Player::Two, 3), GameState::WinByPlayer2);
}

#[test]
fn test_forward_diagonal_win_long() {
    let mut game = ConnectFourGame::new();
    game.board = columns(&[
        &[1],
        &[2, 2],
        &[2, 1, 2],
        &[2, 1, 1, 2],
        &[1, 2, 2, 1, 2],
        &[1, 1, 2, 1, 2, 2],
        &[2, 1, 2, 1, 1],
    ]);
    assert_eq!(game.check_forward_diagonal_win(Player::Two, 3), GameState::WinByPlayer2);
}

#[test]
fn test_no_forward_diagonal_win() {
    let mut game = ConnectFourGame::new();
    game.board = columns(&[
        &[1],
        &[1, 2],
        &[],
        &[2, 1],
        &[1, 2, 1, 2],
        &[1, 1, 2, 1],
        &[2],
    ]);
    assert_eq!(game.check_forward_diagonal_win(Player::One, 3), GameState::InProgress);
}

#[test]
fn test_back_diagonal_win() {
    let mut game = ConnectFourGame::new();
    game.board = columns(&[
        &[1],
        &[2, 2],
        &[2],
        &[2, 1, 2, 1],
        &[1, 2, 1, 2],
        &[1, 1, 2, 1],
        &[1, 1, 2],
    ]);
    assert_eq!(game.check_back_diagonal_win(Player::One, 3), GameState::WinByPlayer1);
}

#[test]
fn test_back_diagonal_win_high() {
    let mut game = ConnectFourGame::new();
    game.board = columns(&[
        &[1],
        &[2, 2],
        &[2],
        &[1, 1, 1, 2, 1],
        &[2, 1, 1, 1, 2],
        &[1, 2, 1, 2, 1],
        &[2, 1, 2, 2],
    ]);
    assert_eq!(game.check_back_diagonal_win(Player::One, 3), GameState::WinByPlayer1);
}

#[test]
fn test_back_diagonal_win_long() {
    let mut game = ConnectFourGame::new();
    game.board = columns(&[
        &[1],
        &[2, 2],
        &[2, 1, 2, 1, 2],
        &[2, 1, 1, 2],
        &[1, 2, 2, 1, 1],
        &[1, 2, 2, 1, 2, 2],
        &[2, 1, 2, 1, 1],
    ]);
    assert_eq!(game.check_back_diagonal_win(Player::Two, 2), GameState::WinByPlayer2);
}

#[test]
fn test_no_back_diagonal_win() {
    let mut game = ConnectFourGame::new();
    game.board = columns(&[
        &[1],
        &[1, 2],
        &[],
        &[2, 1],
        &[1, 2, 1, 2],
        &[1, 1, 2, 1],
        &[2],
    ]);
    assert_eq!(game.check_back_diagonal_win(Player::Two, 1), GameState::InProgress);
}

#[test]
fn test_check_win_row() {
    let mut game = ConnectFourGame::new();
    game.board = columns(&[
        &[1],
        &[1, 2],
        &[],
        &[2, 1],
        &[1, 1, 1, 2],
        &[1, 1, 2, 1],
        &[2, 1],
    ]);
    assert_eq!(game.check_win(Player::One, 3), GameState::WinByPlayer1);
}

#[test]
fn test_check_win_column() {
    let mut game = ConnectFourGame::new();
    game.board = columns(&[
        &[1],
        &[1, 2],
        &[],
        &[2, 1],
        &[2, 2, 2, 2],
        &[1, 1, 2, 1],
        &[2],
    ]);
    assert_eq!(game.check_win(Player::Two, 4), GameState::WinByPlayer2);
}

#[test]
fn test_check_win_forward_diagonal() {
    let mut game = ConnectFourGame::new();
    game.board = columns(&[
        &[1],
        &[1, 2],
        &[1],
        &[2, 1],
        &[1, 2, 1, 2],
        &[1, 1, 2, 1],
        &[2],
    ]);
    assert_eq!(game.check_win(Player::One, 3), GameState::WinByPlayer1);
}

#[test]
fn test_check_win_back_diagonal() {
    let mut game = ConnectFourGame::new();
    game.board = columns(&[
        &[1],
        &[1, 2],
        &[],
        &[2, 1, 2, 1],
        &[1, 2, 1, 2],
        &[1, 1, 2, 1],
        &[1],
    ]);
    assert_eq!(game.check_win(Player::One, 3), GameState::WinByPlayer1);
}

#[test]
fn test_check_win_no_win() {
    let mut game = ConnectFourGame::new();
    game.board = columns(&[
        &[1],
        &[1, 2],
        &[],
        &[2, 1],
        &[1, 2],
        &[1, 1, 2, 1],
        &[2],
    ]);
    assert_eq!(game.check_win(Player::Two, 4), GameState::InProgress);
}

#[test]
fn test_check_win_tie() {
    let mut game = ConnectFourGame::new();
    game.board = columns(&[
        &[1, 2, 1, 2, 1, 2],
        &[2, 1, 2, 1, 2, 1],
        &[2, 1, 2, 1, 2, 1],
        &[1, 2, 1, 2, 1, 2],
        &[2, 1, 2, 1, 2, 1],
        &[2, 1, 2, 1, 2, 1],
        &[1, 2, 1, 2, 1, 2],
    ]);
    assert_eq!(game.check_win(Player::Two, 0), GameState::Tie);
}
