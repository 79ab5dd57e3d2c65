//! The board engine: a 3x3 grid of marks and the win/draw verdict that a
//! single move can produce.
//!
//! A move can only complete a line that runs through the cell it filled, so
//! the verdict only examines the played cell's row, its column, and the two
//! diagonals when the cell lies on them; a full-board scan is needed only for
//! the draw check.

use vstd::prelude::*;

verus! {

/// Mark of an empty cell; also the turn and winner code for "nobody".
pub const MARK_NONE: u16 = 0;

/// Mark, turn code and winner code of the game's creator.
pub const MARK_HOSTER: u16 = 1;

/// Mark, turn code and winner code of the second participant.
pub const MARK_JOINER: u16 = 2;

/// Winner code of a drawn game.
pub const MARK_DRAW: u16 = 3;

/// Mathematical model of a board: three rows of three cells.
pub type BoardView = Seq<Seq<u16>>;

/// The model of a concrete 3x3 grid.
pub open spec fn board_view(b: [[u16; 3]; 3]) -> BoardView {
    Seq::new(3, |i: int| Seq::new(3, |j: int| b[i][j]))
}

/// The model of the all-empty board.
pub open spec fn empty_board() -> BoardView {
    Seq::new(3, |i: int| Seq::new(3, |j: int| MARK_NONE))
}

/// The board with the cell at `(i, j)` replaced by `v`.
pub open spec fn board_set(b: BoardView, i: int, j: int, v: u16) -> BoardView {
    b.update(i, b[i].update(j, v))
}

/// Row `r` holds three equal, non-empty marks.
pub open spec fn row_won(b: BoardView, r: int) -> bool {
    b[r][0] != MARK_NONE && b[r][0] == b[r][1] && b[r][1] == b[r][2]
}

/// Column `c` holds three equal, non-empty marks.
pub open spec fn col_won(b: BoardView, c: int) -> bool {
    b[0][c] != MARK_NONE && b[0][c] == b[1][c] && b[1][c] == b[2][c]
}

/// The main diagonal holds three equal, non-empty marks.
pub open spec fn diag_won(b: BoardView) -> bool {
    b[0][0] != MARK_NONE && b[0][0] == b[1][1] && b[1][1] == b[2][2]
}

/// The anti-diagonal holds three equal, non-empty marks.
pub open spec fn anti_diag_won(b: BoardView) -> bool {
    b[0][2] != MARK_NONE && b[0][2] == b[1][1] && b[1][1] == b[2][0]
}

/// Some line through the cell `(r, c)` holds three equal, non-empty marks.
pub open spec fn line_through(b: BoardView, r: int, c: int) -> bool {
    ||| row_won(b, r)
    ||| col_won(b, c)
    ||| (r == c && diag_won(b))
    ||| (r + c == 2 && anti_diag_won(b))
}

/// Every cell of the board is occupied.
pub open spec fn board_full(b: BoardView) -> bool {
    forall|i: int, j: int| 0 <= i < 3 && 0 <= j < 3 ==> #[trigger] b[i][j] != MARK_NONE
}

/// The verdict after a move at `(r, c)`: the winning mark if the move
/// completed a line through its own cell, `MARK_DRAW` if the board is full
/// without such a line, and `MARK_NONE` otherwise.
pub open spec fn verdict(b: BoardView, r: int, c: int) -> u16 {
    if row_won(b, r) {
        b[r][0]
    } else if col_won(b, c) {
        b[0][c]
    } else if r == c && diag_won(b) {
        b[0][0]
    } else if r + c == 2 && anti_diag_won(b) {
        b[0][2]
    } else if board_full(b) {
        MARK_DRAW
    } else {
        MARK_NONE
    }
}

/// Evaluates the board after a move at `(x_pos, y_pos)` and returns the
/// winning mark, `MARK_DRAW` for a full board without a winner, and
/// `MARK_NONE` otherwise.
#[verifier::loop_isolation(false)]
pub fn calculate_winner(board: [[u16; 3]; 3], x_pos: usize, y_pos: usize) -> (winner: u16)
    requires
        x_pos < 3,
        y_pos < 3,
    ensures
        winner == verdict(board_view(board), x_pos as int, y_pos as int),
{
    // check row
    if board[x_pos][0] != MARK_NONE && board[x_pos][0] == board[x_pos][1] && board[x_pos][1]
        == board[x_pos][2] {
        return board[x_pos][0];
    }
    // check column
    if board[0][y_pos] != MARK_NONE && board[0][y_pos] == board[1][y_pos] && board[1][y_pos]
        == board[2][y_pos] {
        return board[0][y_pos];
    }
    // check diagonals
    if x_pos == y_pos && board[0][0] != MARK_NONE && board[0][0] == board[1][1] && board[1][1]
        == board[2][2] {
        return board[0][0];
    }
    if x_pos + y_pos == 2 && board[0][2] != MARK_NONE && board[0][2] == board[1][1] && board[1][1]
        == board[2][0] {
        return board[0][2];
    }
    // check whether the board is full
    let mut i: usize = 0;
    while i < 3
        invariant
            i <= 3,
            forall|a: int, b: int|
                0 <= a < i && 0 <= b < 3 ==> #[trigger] board_view(board)[a][b] != MARK_NONE,
        decreases 3 - i,
    {
        let mut j: usize = 0;
        while j < 3
            invariant
                i < 3,
                j <= 3,
                forall|a: int, b: int|
                    0 <= a < i && 0 <= b < 3 ==> #[trigger] board_view(board)[a][b] != MARK_NONE,
                forall|b: int|
                    0 <= b < j ==> #[trigger] board_view(board)[i as int][b] != MARK_NONE,
            decreases 3 - j,
        {
            if board[i][j] == MARK_NONE {
                proof {
                    let bv = board_view(board);
                    assert(bv[i as int][j as int] == MARK_NONE);
                    assert(!board_full(bv));
                    assert(!row_won(bv, x_pos as int));
                    assert(!col_won(bv, y_pos as int));
                    assert(x_pos == y_pos ==> !diag_won(bv));
                    assert(x_pos + y_pos == 2 ==> !anti_diag_won(bv));
                }
                return MARK_NONE;
            }
            j += 1;
        }
        i += 1;
    }
    proof {
        assert(board_full(board_view(board)));
    }
    MARK_DRAW
}

/// Win detection is correct: a line of three identical, non-empty marks
/// through the played cell yields that mark; a full board without such a
/// line yields a draw; any other board yields no verdict.
pub proof fn lemma_win_detection(b: BoardView, r: int, c: int)
    requires
        0 <= r < 3,
        0 <= c < 3,
    ensures
        line_through(b, r, c) ==> verdict(b, r, c) == b[r][c] && b[r][c] != MARK_NONE,
        !line_through(b, r, c) && board_full(b) ==> verdict(b, r, c) == MARK_DRAW,
        !line_through(b, r, c) && !board_full(b) ==> verdict(b, r, c) == MARK_NONE,
{
    if row_won(b, r) {
        assert(b[r][0] == b[r][c]);
    } else if col_won(b, c) {
        assert(b[0][c] == b[r][c]);
    } else if r == c && diag_won(b) {
        assert(b[0][0] == b[r][c]);
    } else if r + c == 2 && anti_diag_won(b) {
        assert(b[0][2] == b[r][c]);
    }
}

/// Writes `v` into the cell at `(x, y)` and returns the updated grid.
pub fn set_cell(b: [[u16; 3]; 3], x: usize, y: usize, v: u16) -> (r: [[u16; 3]; 3])
    requires
        x < 3,
        y < 3,
    ensures
        board_view(r) == board_set(board_view(b), x as int, y as int, v),
{
    let mut row: [u16; 3] = b[x];
    row[y] = v;
    let mut nb: [[u16; 3]; 3] = b;
    nb[x] = row;
    proof {
        let bv = board_view(b);
        let nv = board_view(nb);
        let sv = board_set(bv, x as int, y as int, v);
        assert forall|i: int| 0 <= i < 3 implies nv[i] =~= sv[i] by {
            assert forall|j: int| 0 <= j < 3 implies nv[i][j] == sv[i][j] by {
                if i == x {
                    assert(nb@[i] == row);
                    if j == y {
                        assert(row@[j] == v);
                    } else {
                        assert(row@[j] == b@[i]@[j]);
                    }
                } else {
                    assert(nb@[i] == b@[i]);
                }
            }
        }
        assert(nv =~~= sv);
    }
    nb
}

} // verus!
