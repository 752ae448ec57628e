use hidea::board::{EMPTY, PLAYER_ONE_PIECE, PLAYER_ONE_PROMOTED, PLAYER_TWO_PIECE, PLAYER_TWO_PROMOTED};
use hidea::{
    check_winner, default_board, escrow_required, initialize_game, play_ai_move, play_move, Board,
    GameAccount, GameError, Outcome, PlayerKey, MODE_AGAINST_AI, MODE_HEAD_TO_HEAD,
};

fn alice() -> PlayerKey {
    PlayerKey::new([7u8; 32])
}

fn bob() -> PlayerKey {
    let mut bytes = [7u8; 32];
    bytes[31] = 8;
    PlayerKey::new(bytes)
}

fn new_game(mode: u8) -> GameAccount {
    initialize_game::<String>(alice(), mode, 0, Ok(())).unwrap()
}

fn expected_initial(x: usize, y: usize) -> u8 {
    if (x + y) % 2 == 1 && y < 3 {
        1
    } else if (x + y) % 2 == 1 && y >= 5 {
        2
    } else {
        0
    }
}

#[test]
fn initial_layout_is_fixed_for_every_player_and_mode() {
    for (key, mode) in [(alice(), MODE_HEAD_TO_HEAD), (bob(), MODE_AGAINST_AI), (alice(), 9u8)] {
        let g = initialize_game::<String>(key, mode, 0, Ok(())).unwrap();
        for y in 0..8 {
            for x in 0..8 {
                assert_eq!(g.board[y][x], expected_initial(x, y), "cell ({}, {})", x, y);
            }
        }
        assert_eq!(g.player1, key);
        assert_eq!(g.player2, PlayerKey::unassigned());
        assert_eq!(g.turn, key);
        assert_eq!(g.winner, None);
        assert!(g.is_active);
        assert_eq!(g.mode, mode);
        assert_eq!(g.bet_amount, 0);
    }
}

#[test]
fn default_board_counts_twelve_pieces_each() {
    let b = default_board();
    let ones = b.iter().flatten().filter(|c| **c == 1).count();
    let twos = b.iter().flatten().filter(|c| **c == 2).count();
    assert_eq!(ones, 12);
    assert_eq!(twos, 12);
    assert_eq!(b[0][1], 1);
    assert_eq!(b[0][0], 0);
    assert_eq!(b[3], [0u8; 8]);
    assert_eq!(b[4], [0u8; 8]);
    assert_eq!(b[7][0], 2);
}

#[test]
fn unassigned_key_is_all_zero() {
    assert_eq!(PlayerKey::unassigned().to_bytes(), [0u8; 32]);
    assert_ne!(alice(), bob());
    assert_eq!(alice(), PlayerKey::new([7u8; 32]));
}

#[test]
fn escrow_needed_only_for_a_positive_stake() {
    assert!(!escrow_required(0));
    assert!(escrow_required(1));
    assert!(escrow_required(u64::MAX));
}

#[test]
fn failed_escrow_makes_no_match() {
    let r = initialize_game::<String>(alice(), MODE_HEAD_TO_HEAD, 500, Err("insufficient funds".to_string()));
    assert_eq!(r.unwrap_err(), "insufficient funds");
}

#[test]
fn successful_escrow_records_the_stake() {
    let g = initialize_game::<String>(alice(), MODE_AGAINST_AI, 500, Ok(())).unwrap();
    assert_eq!(g.bet_amount, 500);
    assert!(g.is_active);
}

#[test]
fn zero_stake_ignores_the_transfer_outcome() {
    let g = initialize_game::<String>(alice(), MODE_HEAD_TO_HEAD, 0, Err("unused".to_string())).unwrap();
    assert_eq!(g.bet_amount, 0);
}

#[test]
fn move_by_the_wrong_player_is_refused() {
    let mut g = new_game(MODE_HEAD_TO_HEAD);
    let before = g;
    assert_eq!(play_move(&mut g, bob(), 1, 2, 0, 3), Err(GameError::NotYourTurn));
    assert_eq!(g.board, before.board);
    assert_eq!(g.turn, before.turn);
    assert_eq!(g.winner, before.winner);
}

#[test]
fn finished_match_refuses_every_move() {
    let mut g = new_game(MODE_HEAD_TO_HEAD);
    g.is_active = false;
    g.winner = Some(alice());
    let before = g;
    assert_eq!(play_move(&mut g, alice(), 1, 2, 0, 3), Err(GameError::GameFinished));
    assert_eq!(play_move(&mut g, bob(), 1, 2, 0, 3), Err(GameError::GameFinished));
    assert_eq!(g.board, before.board);
    assert_eq!(g.turn, before.turn);
    assert_eq!(g.winner, before.winner);
    assert!(!g.is_active);
}

#[test]
fn empty_source_is_an_invalid_move() {
    let mut g = new_game(MODE_HEAD_TO_HEAD);
    assert_eq!(play_move(&mut g, alice(), 0, 0, 0, 3), Err(GameError::InvalidMove));
    assert_eq!(g.board, default_board());
    assert_eq!(g.turn, alice());
}

#[test]
fn scenario_from_an_empty_square_is_refused() {
    // (0, 2) is empty at the start, since 0 + 2 is even.
    let mut g = new_game(MODE_HEAD_TO_HEAD);
    assert_eq!(play_move(&mut g, alice(), 0, 2, 0, 3), Err(GameError::InvalidMove));
    assert_eq!(g.board[2][0], 0);
    assert_eq!(g.board[3][0], 0);
    assert_eq!(g.turn, alice());
}

#[test]
fn scenario_first_head_to_head_move() {
    let mut g = new_game(MODE_HEAD_TO_HEAD);
    assert_eq!(play_move(&mut g, alice(), 1, 2, 0, 3), Ok(()));
    assert_eq!(g.board[3][0], 1);
    assert_eq!(g.board[2][1], 0);
    assert_eq!(g.turn, g.player2);
    assert!(g.is_active);
    assert_eq!(g.winner, None);
}

#[test]
fn head_to_head_turn_passes_back_and_forth() {
    let mut g = new_game(MODE_HEAD_TO_HEAD);
    let p2 = g.player2;
    assert_eq!(play_move(&mut g, alice(), 1, 2, 0, 3), Ok(()));
    assert_eq!(play_move(&mut g, alice(), 3, 2, 2, 3), Err(GameError::NotYourTurn));
    assert_eq!(play_move(&mut g, p2, 0, 5, 1, 4), Ok(()));
    assert_eq!(g.turn, alice());
    assert_eq!(g.board[4][1], 2);
    assert_eq!(g.board[5][0], 0);
}

#[test]
fn move_overwrites_an_occupied_destination() {
    let mut g = new_game(MODE_HEAD_TO_HEAD);
    assert_eq!(g.board[5][0], 2);
    assert_eq!(play_move(&mut g, alice(), 1, 2, 0, 5), Ok(()));
    assert_eq!(g.board[5][0], 1);
    assert_eq!(g.board[2][1], 0);
}

#[test]
fn move_onto_its_own_square_empties_it() {
    let mut g = new_game(MODE_HEAD_TO_HEAD);
    assert_eq!(play_move(&mut g, alice(), 1, 2, 1, 2), Ok(()));
    assert_eq!(g.board[2][1], 0);
}

#[test]
fn automated_opponent_replies_in_the_same_call() {
    let mut g = new_game(MODE_AGAINST_AI);
    assert_eq!(play_move(&mut g, alice(), 1, 2, 0, 3), Ok(()));
    assert_eq!(g.board[3][0], 1);
    assert_eq!(g.board[2][1], 0);
    // First player-two piece in row-major order is (0, 5); up-left is off the
    // board, so it steps up-right to (1, 4).
    assert_eq!(g.board[5][0], 0);
    assert_eq!(g.board[4][1], 2);
    assert_eq!(g.turn, alice());
    assert!(g.is_active);
}

#[test]
fn automated_opponent_prefers_up_left() {
    let mut b: Board = [[0u8; 8]; 8];
    b[6][3] = 2;
    b[7][0] = 2;
    let mut same = b;
    play_ai_move(&mut b);
    assert_eq!(b[6][3], 0);
    assert_eq!(b[5][2], 2);
    assert_eq!(b[5][4], 0);
    assert_eq!(b[7][0], 2);
    play_ai_move(&mut same);
    assert_eq!(same, b);
}

#[test]
fn automated_opponent_skips_blocked_pieces() {
    let mut b: Board = [[0u8; 8]; 8];
    b[6][0] = 2;
    b[5][1] = 1;
    b[6][7] = 2;
    b[5][6] = 4;
    b[7][2] = 2;
    play_ai_move(&mut b);
    assert_eq!(b[6][0], 2);
    assert_eq!(b[6][7], 2);
    assert_eq!(b[7][2], 0);
    assert_eq!(b[6][1], 2);
}

#[test]
fn automated_opponent_ignores_promoted_pieces() {
    let mut b: Board = [[0u8; 8]; 8];
    b[4][4] = 4;
    let before = b;
    play_ai_move(&mut b);
    assert_eq!(b, before);
}

#[test]
fn automated_opponent_without_a_move_does_nothing() {
    let mut b: Board = [[0u8; 8]; 8];
    b[0][3] = 2;
    b[0][5] = 1;
    let before = b;
    play_ai_move(&mut b);
    assert_eq!(b, before);
}

#[test]
fn winner_when_player_one_has_no_pieces() {
    let mut b: Board = [[0u8; 8]; 8];
    b[6][3] = PLAYER_TWO_PIECE;
    assert_eq!(check_winner(&b), Outcome::PlayerTwoWins);
}

#[test]
fn winner_when_player_two_has_no_pieces() {
    let mut b: Board = [[0u8; 8]; 8];
    b[1][2] = PLAYER_ONE_PROMOTED;
    assert_eq!(check_winner(&b), Outcome::PlayerOneWins);
}

#[test]
fn empty_board_goes_to_player_two() {
    let b: Board = [[EMPTY; 8]; 8];
    assert_eq!(check_winner(&b), Outcome::PlayerTwoWins);
}

#[test]
fn both_sides_present_is_undecided() {
    assert_eq!(check_winner(&default_board()), Outcome::Undecided);
    let mut b: Board = [[0u8; 8]; 8];
    b[0][0] = PLAYER_ONE_PIECE;
    b[7][7] = PLAYER_TWO_PROMOTED;
    assert_eq!(check_winner(&b), Outcome::Undecided);
}

#[test]
fn other_cell_values_count_for_nobody() {
    let mut b: Board = [[0u8; 8]; 8];
    b[3][3] = 5;
    b[4][4] = PLAYER_ONE_PIECE;
    assert_eq!(check_winner(&b), Outcome::PlayerOneWins);
}

#[test]
fn capturing_the_last_piece_ends_the_match() {
    let mut g = new_game(MODE_HEAD_TO_HEAD);
    g.board = [[0u8; 8]; 8];
    g.board[2][1] = 1;
    g.board[3][2] = 2;
    assert_eq!(play_move(&mut g, alice(), 1, 2, 2, 3), Ok(()));
    assert_eq!(g.winner, Some(alice()));
    assert!(!g.is_active);
    assert_eq!(g.turn, g.player2);
    let p2 = g.player2;
    assert_eq!(play_move(&mut g, p2, 2, 3, 3, 4), Err(GameError::GameFinished));
    assert_eq!(g.board[3][2], 1);
}

#[test]
fn losing_the_last_piece_gives_the_match_to_player_two() {
    let mut g = new_game(MODE_HEAD_TO_HEAD);
    g.board = [[0u8; 8]; 8];
    g.board[2][1] = 2;
    g.board[6][6] = 1;
    assert_eq!(play_move(&mut g, alice(), 1, 2, 6, 6), Ok(()));
    assert_eq!(g.winner, Some(g.player2));
    assert!(!g.is_active);
}

#[test]
fn automated_reply_steps_past_an_occupied_square() {
    let mut g = new_game(MODE_AGAINST_AI);
    g.board = [[0u8; 8]; 8];
    g.board[7][7] = 1;
    g.board[6][3] = 2;
    g.board[5][2] = 0;
    // Player one blocks the opponent's up-left square, so it steps up-right.
    assert_eq!(play_move(&mut g, alice(), 7, 7, 2, 5), Ok(()));
    assert_eq!(g.board[5][2], 1);
    assert_eq!(g.board[6][3], 0);
    assert_eq!(g.board[5][4], 2);
    assert_eq!(g.winner, None);
}
