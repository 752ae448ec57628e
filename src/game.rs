use vstd::prelude::*;

use crate::board::{
    automated_reply, cells, check_winner, default_board, get_cell, initial_cells,
    lemma_automated_policy, moved, on_board, outcome_of, play_ai_move, reply_touches, set_cell,
    Board, Outcome, EMPTY,
};
use crate::key::PlayerKey;

verus! {

/// Two people take turns.
pub const MODE_HEAD_TO_HEAD: u8 = 0;

/// One person plays the built-in opponent; any mode other than head-to-head
/// is played this way.
pub const MODE_AGAINST_AI: u8 = 1;

/// Why a move was turned down.
#[derive(Clone, Copy, Debug, PartialEq, Eq, Structural)]
pub enum GameError {
    NotYourTurn,
    GameFinished,
    InvalidMove,
}

/// One match: who plays, how, for what stake, and where it stands.
#[derive(Clone, Copy, Debug)]
pub struct GameAccount {
    pub player1: PlayerKey,
    pub player2: PlayerKey,
    pub mode: u8,
    pub bet_amount: u64,
    pub board: Board,
    pub turn: PlayerKey,
    pub winner: Option<PlayerKey>,
    pub is_active: bool,
}

impl GameAccount {
    /// The match's standing invariant: the turn belongs to one of its two
    /// players, and a match is over exactly when a winner is recorded.
    pub open spec fn wf(&self) -> bool {
        &&& (self.turn == self.player1 || self.turn == self.player2)
        &&& (self.is_active <==> self.winner is None)
    }
}

pub open spec fn is_head_to_head(mode: u8) -> bool {
    mode == MODE_HEAD_TO_HEAD
}

/// Who holds the turn after a successful move.
pub open spec fn next_turn(g: GameAccount) -> PlayerKey {
    if is_head_to_head(g.mode) {
        if g.turn == g.player1 {
            g.player2
        } else {
            g.player1
        }
    } else {
        g.player1
    }
}

/// The board after a successful move: the mover's step, then, against the
/// built-in opponent, its reply.
pub open spec fn board_after_move(g: GameAccount, fx: int, fy: int, tx: int, ty: int) -> Seq<Seq<u8>> {
    let stepped = moved(cells(g.board), fx, fy, tx, ty);
    if is_head_to_head(g.mode) {
        stepped
    } else {
        automated_reply(stepped)
    }
}

/// The error a move meets, checked in this order, if any.
pub open spec fn move_error(g: GameAccount, player: PlayerKey, fx: int, fy: int) -> Option<GameError> {
    if !g.is_active {
        Some(GameError::GameFinished)
    } else if g.turn != player {
        Some(GameError::NotYourTurn)
    } else if cells(g.board)[fy][fx] == EMPTY {
        Some(GameError::InvalidMove)
    } else {
        None
    }
}

/// A legal move (live match, the mover's turn, an occupied source) succeeds
/// and leaves the source's piece on the destination and the source empty.
/// Against the built-in opponent this holds when its reply touches neither
/// square; the source and destination must differ.
pub proof fn lemma_move_effect(g: GameAccount, player: PlayerKey, fx: int, fy: int, tx: int, ty: int)
    requires
        g.is_active,
        g.turn == player,
        on_board(fx, fy),
        on_board(tx, ty),
        cells(g.board)[fy][fx] != EMPTY,
        fx != tx || fy != ty,
        !is_head_to_head(g.mode) ==> !reply_touches(moved(cells(g.board), fx, fy, tx, ty), fx, fy)
            && !reply_touches(moved(cells(g.board), fx, fy, tx, ty), tx, ty),
    ensures
        move_error(g, player, fx, fy) is None,
        board_after_move(g, fx, fy, tx, ty)[ty][tx] == cells(g.board)[fy][fx],
        board_after_move(g, fx, fy, tx, ty)[fy][fx] == EMPTY,
{
    let stepped = moved(cells(g.board), fx, fy, tx, ty);
    lemma_automated_policy(stepped);
}

/// A stake must be moved into escrow exactly when it is positive.
pub fn escrow_required(bet_amount: u64) -> (r: bool)
    ensures
        r == (bet_amount > 0),
{
    bet_amount > 0
}

/// Opens a match for `player1`.
///
/// `escrow` is the outcome of moving `bet_amount` into the match's escrow; it
/// is consulted only when a stake is owed (see `escrow_required`). A failed
/// transfer is handed back and no match is made.
pub fn initialize_game<E>(player1: PlayerKey, mode: u8, bet_amount: u64, escrow: Result<(), E>) -> (r:
    Result<GameAccount, E>)
    ensures
        bet_amount > 0 && escrow is Err ==> r == Err::<GameAccount, E>(escrow->Err_0),
        r is Ok <==> (bet_amount == 0 || escrow is Ok),
        r matches Ok(g) ==> {
            &&& g.player1 == player1
            &&& g.player2.is_unassigned()
            &&& g.mode == mode
            &&& g.bet_amount == bet_amount
            &&& cells(g.board) == initial_cells()
            &&& g.turn == player1
            &&& g.winner is None
            &&& g.is_active
            &&& g.wf()
        },
{
    if escrow_required(bet_amount) {
        if let Err(e) = escrow {
            return Err(e);
        }
    }
    let board = default_board();
    Ok(
        GameAccount {
            player1,
            player2: PlayerKey::unassigned(),
            mode,
            bet_amount,
            board,
            turn: player1,
            winner: None,
            is_active: true,
        },
    )
}

/// Plays `player`'s move of the piece at `(from_x, from_y)` to `(to_x, to_y)`.
///
/// The match must be live, the turn `player`'s, and the source square
/// occupied; nothing else about the move is checked, and whatever stood on the
/// destination is overwritten. Head-to-head, the turn then passes to the other
/// player; against the built-in opponent, it replies at once and the turn
/// returns to player one. A board on which one side has no pieces left ends
/// the match. On error nothing changes.
pub fn play_move(game: &mut GameAccount, player: PlayerKey, from_x: u8, from_y: u8, to_x: u8, to_y: u8) -> (r:
    Result<(), GameError>)
    requires
        old(game).is_active && old(game).turn == player ==> from_x < 8 && from_y < 8 && to_x < 8
            && to_y < 8,
    ensures
        ({
            let g = *old(game);
            let fx = from_x as int;
            let fy = from_y as int;
            let tx = to_x as int;
            let ty = to_y as int;
            match move_error(g, player, fx, fy) {
                Some(e) => r == Err::<(), GameError>(e) && *final(game) == g,
                None => {
                    let b = board_after_move(g, fx, fy, tx, ty);
                    &&& r is Ok
                    &&& cells(final(game).board) == b
                    &&& final(game).turn == next_turn(g)
                    &&& final(game).player1 == g.player1
                    &&& final(game).player2 == g.player2
                    &&& final(game).mode == g.mode
                    &&& final(game).bet_amount == g.bet_amount
                    &&& match outcome_of(b) {
                        Outcome::PlayerOneWins => final(game).winner == Some(g.player1)
                            && !final(game).is_active,
                        Outcome::PlayerTwoWins => final(game).winner == Some(g.player2)
                            && !final(game).is_active,
                        Outcome::Undecided => final(game).winner == g.winner
                            && final(game).is_active,
                    }
                },
            }
        }),
        !old(game).is_active ==> r == Err::<(), GameError>(GameError::GameFinished) && *final(game)
            == *old(game),
        old(game).is_active && old(game).turn != player ==> r == Err::<(), GameError>(
            GameError::NotYourTurn,
        ) && *final(game) == *old(game),
        old(game).wf() ==> final(game).wf(),
{
    if !game.is_active {
        return Err(GameError::GameFinished);
    }
    if game.turn != player {
        return Err(GameError::NotYourTurn);
    }
    let fx = from_x as usize;
    let fy = from_y as usize;
    let tx = to_x as usize;
    let ty = to_y as usize;
    let piece = get_cell(&game.board, fx, fy);
    if piece == EMPTY {
        return Err(GameError::InvalidMove);
    }
    set_cell(&mut game.board, tx, ty, piece);
    set_cell(&mut game.board, fx, fy, EMPTY);

    if game.mode == MODE_HEAD_TO_HEAD {
        game.turn = if game.turn == game.player1 {
            game.player2
        } else {
            game.player1
        };
    } else {
        play_ai_move(&mut game.board);
        game.turn = game.player1;
    }

    match check_winner(&game.board) {
        Outcome::PlayerOneWins => {
            game.winner = Some(game.player1);
            game.is_active = false;
        },
        Outcome::PlayerTwoWins => {
            game.winner = Some(game.player2);
            game.is_active = false;
        },
        Outcome::Undecided => {},
    }
    Ok(())
}

} // verus!
