use vstd::prelude::*;

verus! {

/// The 8x8 grid, indexed `board[y][x]`.
pub type Board = [[u8; 8]; 8];

/// Cell values: empty, a plain piece of either side, a promoted piece of either side.
/// No move ever writes a promoted piece; they count only toward the end-of-match rule.
pub const EMPTY: u8 = 0;
pub const PLAYER_ONE_PIECE: u8 = 1;
pub const PLAYER_TWO_PIECE: u8 = 2;
pub const PLAYER_ONE_PROMOTED: u8 = 3;
pub const PLAYER_TWO_PROMOTED: u8 = 4;

/// What a board says about the end of the match.
#[derive(Clone, Copy, Debug, PartialEq, Eq, Structural)]
pub enum Outcome {
    Undecided,
    PlayerOneWins,
    PlayerTwoWins,
}

/// The board as rows of cells.
pub open spec fn cells(b: Board) -> Seq<Seq<u8>> {
    b@.map_values(|r: [u8; 8]| r@)
}

pub open spec fn on_board(x: int, y: int) -> bool {
    0 <= x < 8 && 0 <= y < 8
}

pub open spec fn is_player_one_piece(c: u8) -> bool {
    c == PLAYER_ONE_PIECE || c == PLAYER_ONE_PROMOTED
}

pub open spec fn is_player_two_piece(c: u8) -> bool {
    c == PLAYER_TWO_PIECE || c == PLAYER_TWO_PROMOTED
}

pub open spec fn has_player_one_piece(v: Seq<Seq<u8>>) -> bool {
    exists|y: int, x: int| on_board(x, y) && #[trigger] is_player_one_piece(v[y][x])
}

pub open spec fn has_player_two_piece(v: Seq<Seq<u8>>) -> bool {
    exists|y: int, x: int| on_board(x, y) && #[trigger] is_player_two_piece(v[y][x])
}

/// A side with no pieces left has lost; player one running out is checked first.
pub open spec fn outcome_of(v: Seq<Seq<u8>>) -> Outcome {
    if !has_player_one_piece(v) {
        Outcome::PlayerTwoWins
    } else if !has_player_two_piece(v) {
        Outcome::PlayerOneWins
    } else {
        Outcome::Undecided
    }
}

/// Starting layout: three rows per side, on the squares where `x + y` is odd.
pub open spec fn initial_cell(x: int, y: int) -> u8 {
    if 0 <= y < 3 && (x + y) % 2 == 1 {
        PLAYER_ONE_PIECE
    } else if 5 <= y < 8 && (x + y) % 2 == 1 {
        PLAYER_TWO_PIECE
    } else {
        EMPTY
    }
}

pub open spec fn initial_cells() -> Seq<Seq<u8>> {
    Seq::new(8, |y: int| Seq::new(8, |x: int| initial_cell(x, y)))
}

pub open spec fn with_cell(v: Seq<Seq<u8>>, x: int, y: int, c: u8) -> Seq<Seq<u8>> {
    v.update(y, v[y].update(x, c))
}

/// The piece at the source is written to the destination, then the source is cleared.
pub open spec fn moved(v: Seq<Seq<u8>>, fx: int, fy: int, tx: int, ty: int) -> Seq<Seq<u8>> {
    with_cell(with_cell(v, tx, ty, v[fy][fx]), fx, fy, EMPTY)
}

pub open spec fn up_left_open(v: Seq<Seq<u8>>, x: int, y: int) -> bool {
    y > 0 && x > 0 && v[y - 1][x - 1] == EMPTY
}

pub open spec fn up_right_open(v: Seq<Seq<u8>>, x: int, y: int) -> bool {
    y > 0 && x < 7 && v[y - 1][x + 1] == EMPTY
}

/// A plain player-two piece with at least one empty forward diagonal.
pub open spec fn can_advance(v: Seq<Seq<u8>>, x: int, y: int) -> bool {
    v[y][x] == PLAYER_TWO_PIECE && (up_left_open(v, x, y) || up_right_open(v, x, y))
}

/// The first piece at or after `(x, y)` in row-major order that can advance.
pub open spec fn scan_from(v: Seq<Seq<u8>>, y: int, x: int) -> Option<(int, int)>
    decreases 8 - y, 8 - x,
{
    if y >= 8 {
        None
    } else if x >= 8 {
        scan_from(v, y + 1, 0)
    } else if can_advance(v, x, y) {
        Some((x, y))
    } else {
        scan_from(v, y, x + 1)
    }
}

/// The piece the automated opponent moves, if any.
pub open spec fn automated_choice(v: Seq<Seq<u8>>) -> Option<(int, int)> {
    scan_from(v, 0, 0)
}

/// The board after the automated opponent's reply: its chosen piece steps
/// up-left when it can, else up-right; with no choice the board is unchanged.
pub open spec fn automated_reply(v: Seq<Seq<u8>>) -> Seq<Seq<u8>> {
    match automated_choice(v) {
        None => v,
        Some((x, y)) => if up_left_open(v, x, y) {
            moved(v, x, y, x - 1, y - 1)
        } else {
            moved(v, x, y, x + 1, y - 1)
        },
    }
}

/// Whether the automated opponent's reply on `v` empties or fills `(x, y)`.
pub open spec fn reply_touches(v: Seq<Seq<u8>>, x: int, y: int) -> bool {
    match automated_choice(v) {
        None => false,
        Some((cx, cy)) => (x == cx && y == cy) || (y == cy - 1 && x == (if up_left_open(v, cx, cy) {
            cx - 1
        } else {
            cx + 1
        })),
    }
}

/// Square `(xx, yy)` comes at or after `(x, y)` in row-major order.
pub open spec fn at_or_after(xx: int, yy: int, x: int, y: int) -> bool {
    yy > y || (yy == y && xx >= x)
}

proof fn lemma_scan_from(v: Seq<Seq<u8>>, y: int, x: int)
    requires
        0 <= y <= 8,
        0 <= x <= 8,
    ensures
        match scan_from(v, y, x) {
            Some((cx, cy)) => {
                &&& on_board(cx, cy)
                &&& can_advance(v, cx, cy)
                &&& at_or_after(cx, cy, x, y)
                &&& forall|yy: int, xx: int|
                    on_board(xx, yy) && at_or_after(xx, yy, x, y) && !at_or_after(xx, yy, cx, cy)
                        ==> !#[trigger] can_advance(v, xx, yy)
            },
            None => forall|yy: int, xx: int|
                on_board(xx, yy) && at_or_after(xx, yy, x, y) ==> !#[trigger] can_advance(v, xx, yy),
        },
    decreases 8 - y, 8 - x,
{
    if y >= 8 {
    } else if x >= 8 {
        lemma_scan_from(v, y + 1, 0);
    } else if can_advance(v, x, y) {
    } else {
        lemma_scan_from(v, y, x + 1);
    }
}

/// The automated opponent's policy is fixed by the board alone: it picks the
/// first piece in row-major order that can advance (every square before it
/// holds none), steps it up-left when that square is empty, and otherwise
/// up-right. When no piece can advance the board stays as it is.
pub proof fn lemma_automated_policy(v: Seq<Seq<u8>>)
    ensures
        match automated_choice(v) {
            Some((x, y)) => {
                &&& on_board(x, y)
                &&& can_advance(v, x, y)
                &&& forall|yy: int, xx: int|
                    on_board(xx, yy) && !at_or_after(xx, yy, x, y) ==> !#[trigger] can_advance(
                        v,
                        xx,
                        yy,
                    )
                &&& up_left_open(v, x, y) ==> automated_reply(v) == moved(v, x, y, x - 1, y - 1)
                &&& !up_left_open(v, x, y) ==> up_right_open(v, x, y) && automated_reply(v)
                    == moved(v, x, y, x + 1, y - 1)
            },
            None => {
                &&& forall|yy: int, xx: int| on_board(xx, yy) ==> !#[trigger] can_advance(v, xx, yy)
                &&& automated_reply(v) == v
            },
        },
{
    lemma_scan_from(v, 0, 0);
}

pub fn get_cell(board: &Board, x: usize, y: usize) -> (r: u8)
    requires
        x < 8,
        y < 8,
    ensures
        r == cells(*board)[y as int][x as int],
{
    board[y][x]
}

pub fn set_cell(board: &mut Board, x: usize, y: usize, c: u8)
    requires
        x < 8,
        y < 8,
    ensures
        cells(*final(board)) == with_cell(cells(*old(board)), x as int, y as int, c),
{
    let mut row = board[y];
    row[x] = c;
    board[y] = row;
    assert(cells(*board) =~= with_cell(cells(*old(board)), x as int, y as int, c));
}

/// Rows 0 to 2 hold player one's pieces and rows 5 to 7 player two's, on the
/// squares where `x + y` is odd; rows 3 and 4 are empty.
pub fn default_board() -> (r: Board)
    ensures
        cells(r) == initial_cells(),
{
    let mut board: Board = [[EMPTY; 8]; 8];
    let mut y: usize = 0;
    while y < 8
        invariant
            0 <= y <= 8,
            forall|yy: int, xx: int|
                on_board(xx, yy) ==> #[trigger] cells(board)[yy][xx] == (if yy < y {
                    initial_cell(xx, yy)
                } else {
                    EMPTY
                }),
        decreases 8 - y,
    {
        let mut x: usize = 0;
        while x < 8
            invariant
                0 <= x <= 8,
                y < 8,
                forall|yy: int, xx: int|
                    on_board(xx, yy) ==> #[trigger] cells(board)[yy][xx] == (if yy < y || (
                    yy == y && xx < x) {
                        initial_cell(xx, yy)
                    } else {
                        EMPTY
                    }),
            decreases 8 - x,
        {
            if (x + y) % 2 == 1 {
                if y < 3 {
                    set_cell(&mut board, x, y, PLAYER_ONE_PIECE);
                } else if y >= 5 {
                    set_cell(&mut board, x, y, PLAYER_TWO_PIECE);
                }
            }
            x = x + 1;
        }
        y = y + 1;
    }
    assert(cells(board) =~~= initial_cells());
    board
}

/// Counts each side's pieces, promoted ones included, and reports a side with
/// none left as beaten.
pub fn check_winner(board: &Board) -> (r: Outcome)
    ensures
        r == outcome_of(cells(*board)),
        !has_player_one_piece(cells(*board)) ==> r == Outcome::PlayerTwoWins,
        has_player_one_piece(cells(*board)) && !has_player_two_piece(cells(*board)) ==> r
            == Outcome::PlayerOneWins,
        has_player_one_piece(cells(*board)) && has_player_two_piece(cells(*board)) ==> r
            == Outcome::Undecided,
{
    let ghost v = cells(*board);
    let mut p1: u32 = 0;
    let mut p2: u32 = 0;
    let mut y: usize = 0;
    while y < 8
        invariant
            0 <= y <= 8,
            v == cells(*board),
            p1 <= 8 * y,
            p2 <= 8 * y,
            p1 == 0 <==> forall|yy: int, xx: int|
                on_board(xx, yy) && yy < y ==> !#[trigger] is_player_one_piece(v[yy][xx]),
            p2 == 0 <==> forall|yy: int, xx: int|
                on_board(xx, yy) && yy < y ==> !#[trigger] is_player_two_piece(v[yy][xx]),
        decreases 8 - y,
    {
        let mut x: usize = 0;
        while x < 8
            invariant
                0 <= x <= 8,
                y < 8,
                v == cells(*board),
                p1 <= 8 * y + x,
                p2 <= 8 * y + x,
                p1 == 0 <==> forall|yy: int, xx: int|
                    on_board(xx, yy) && (yy < y || (yy == y && xx < x)) ==> !#[trigger] is_player_one_piece(v[yy][xx]),
                p2 == 0 <==> forall|yy: int, xx: int|
                    on_board(xx, yy) && (yy < y || (yy == y && xx < x)) ==> !#[trigger] is_player_two_piece(v[yy][xx]),
            decreases 8 - x,
        {
            let c = board[y][x];
            assert(c == v[y as int][x as int]);
            if c == PLAYER_ONE_PIECE || c == PLAYER_ONE_PROMOTED {
                assert(is_player_one_piece(v[y as int][x as int]));
                p1 = p1 + 1;
            } else if c == PLAYER_TWO_PIECE || c == PLAYER_TWO_PROMOTED {
                assert(is_player_two_piece(v[y as int][x as int]));
                p2 = p2 + 1;
            }
            x = x + 1;
        }
        y = y + 1;
    }
    if p1 == 0 {
        Outcome::PlayerTwoWins
    } else if p2 == 0 {
        Outcome::PlayerOneWins
    } else {
        Outcome::Undecided
    }
}

/// The automated opponent's reply: scanning rows top to bottom and each row
/// left to right, the first plain player-two piece with an empty forward
/// diagonal steps up-left if that square is empty, else up-right. With no
/// such piece the board is left as it is.
pub fn play_ai_move(board: &mut Board)
    ensures
        cells(*final(board)) == automated_reply(cells(*old(board))),
{
    let ghost v = cells(*board);
    let mut y: usize = 0;
    while y < 8
        invariant
            0 <= y <= 8,
            v == cells(*board),
            *board == *old(board),
            automated_choice(v) == scan_from(v, y as int, 0),
        decreases 8 - y,
    {
        let mut x: usize = 0;
        while x < 8
            invariant
                0 <= x <= 8,
                y < 8,
                v == cells(*board),
                *board == *old(board),
                automated_choice(v) == scan_from(v, y as int, x as int),
            decreases 8 - x,
        {
            let piece = board[y][x];
            if piece == PLAYER_TWO_PIECE {
                if y > 0 && x > 0 && board[y - 1][x - 1] == EMPTY {
                    set_cell(board, x - 1, y - 1, piece);
                    set_cell(board, x, y, EMPTY);
                    return;
                }
                if y > 0 && x < 7 && board[y - 1][x + 1] == EMPTY {
                    set_cell(board, x + 1, y - 1, piece);
                    set_cell(board, x, y, EMPTY);
                    return;
                }
            }
            x = x + 1;
        }
        assert(scan_from(v, y as int, 8) == scan_from(v, y + 1, 0));
        y = y + 1;
    }
}

} // verus!
