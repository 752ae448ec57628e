//! A two-player checkers-like match with an optional built-in opponent and a
//! stake held in escrow: the board, turn order, the opponent's policy and the
//! end-of-match rule, each with its contract.

pub mod board;
pub mod game;
pub mod key;

pub use board::{check_winner, default_board, play_ai_move, Board, Outcome};
pub use game::{
    escrow_required, initialize_game, play_move, GameAccount, GameError, MODE_AGAINST_AI,
    MODE_HEAD_TO_HEAD,
};
pub use key::PlayerKey;
