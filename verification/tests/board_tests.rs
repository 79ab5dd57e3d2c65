use tic_tac_toe::calculate_winner;

#[test]
fn row_win_returns_the_mark() {
    let board = [[1, 1, 1], [2, 2, 0], [0, 0, 0]];
    assert_eq!(calculate_winner(board, 0, 2), 1);
}

#[test]
fn column_win_returns_the_mark() {
    let board = [[2, 1, 0], [2, 1, 0], [0, 1, 0]];
    assert_eq!(calculate_winner(board, 2, 1), 1);
}

#[test]
fn main_diagonal_win_returns_the_mark() {
    let board = [[2, 1, 1], [0, 2, 0], [1, 0, 2]];
    assert_eq!(calculate_winner(board, 1, 1), 2);
}

#[test]
fn anti_diagonal_win_returns_the_mark() {
    let board = [[1, 0, 2], [0, 2, 0], [2, 1, 1]];
    assert_eq!(calculate_winner(board, 1, 1), 2);
}

#[test]
fn full_board_without_line_is_a_draw() {
    let board = [[1, 2, 1], [2, 1, 1], [2, 1, 2]];
    assert_eq!(calculate_winner(board, 2, 2), 3);
}

#[test]
fn board_with_any_empty_cell_is_not_a_draw() {
    // Only the last cell is empty: the draw check must visit all nine cells.
    let board = [[1, 2, 1], [2, 1, 1], [2, 1, 0]];
    assert_eq!(calculate_winner(board, 2, 1), 0);
}

#[test]
fn line_not_through_played_cell_is_not_reported() {
    // Row 0 is complete, but the verdict only looks at lines through the
    // cell that was just played.
    let board = [[1, 1, 1], [2, 2, 0], [0, 0, 0]];
    assert_eq!(calculate_winner(board, 1, 1), 0);
}

#[test]
fn empty_board_has_no_verdict() {
    let board = [[0; 3]; 3];
    assert_eq!(calculate_winner(board, 0, 0), 0);
}
