//! Game-level tests: turn application, special moves, clocks, and the
//! termination evaluator.

use cheess::board::{Board, Coordinates, PieceColour, PieceType};
use cheess::legality::get_legal_move_list;
use cheess::state::{
    bishop_can_checkmate, game_end, game_end_by_repetition, take_turn, GameEnd, GameMode,
    GameState, MoveError, PieceSet,
};

fn c(x: usize, y: usize) -> Coordinates {
    Coordinates { x, y }
}

fn empty_board() -> Board {
    let mut kinds = Vec::new();
    let mut colours = Vec::new();
    for _ in 0..64 {
        kinds.push(PieceType::Empty);
        colours.push(PieceColour::Empty);
    }
    Board { kinds, colours }
}

fn place(board: &mut Board, x: usize, y: usize, kind: PieceType, colour: PieceColour) {
    board.kinds[y * 8 + x] = kind;
    board.colours[y * 8 + x] = colour;
}

fn no_pieces() -> PieceSet {
    PieceSet { pawn: 0, rook: 0, knight: 0, bishop: 0, queen: 0 }
}

/// A fresh state whose board was replaced by a constructed position: castling
/// rights dropped, histories reset, move list regenerated.
fn custom_state(board: Board, white_pieces: PieceSet, black_pieces: PieceSet) -> GameState {
    let mut state = GameState::new();
    state.table_states_since_last_capture_or_pawn_move = vec![board.clone()];
    state.board = board;
    state.white_can_castle_kingside = false;
    state.white_can_castle_queenside = false;
    state.black_can_castle_kingside = false;
    state.black_can_castle_queenside = false;
    state.white_pieces = white_pieces;
    state.black_pieces = black_pieces;
    get_legal_move_list(&mut state);
    state
}

fn mv(state: &mut GameState, from: (usize, usize), to: (usize, usize)) {
    let r = take_turn(state, (c(from.0, from.1), c(to.0, to.1)), PieceType::Queen);
    assert!(r.is_ok());
}

#[test]
fn end_to_end_opening() {
    // e2-e4 (12 -> 28) and e7-e5 (52 -> 36) are both legal beforehand,
    // individually applicable, and affect no castling rights
    let mut state = GameState::new();
    get_legal_move_list(&mut state);
    let e2e4 = (Coordinates::from_index(12), Coordinates::from_index(28));
    assert!(state.move_list.white.contains(&e2e4));
    assert!(take_turn(&mut state, e2e4, PieceType::Queen).is_ok());
    assert_eq!(state.player_turn, 2);
    assert_eq!(state.turn_counter, 1);
    assert_eq!(state.board.kinds[28], PieceType::Pawn);
    assert_eq!(state.board.kinds[12], PieceType::Empty);
    let e7e5 = (Coordinates::from_index(52), Coordinates::from_index(36));
    assert!(state.move_list.black.contains(&e7e5));
    assert!(take_turn(&mut state, e7e5, PieceType::Queen).is_ok());
    assert!(state.white_can_castle_kingside && state.white_can_castle_queenside);
    assert!(state.black_can_castle_kingside && state.black_can_castle_queenside);
    assert_eq!(state.player_turn, 1);
    assert_eq!(state.turn_counter, 2);
    assert!(!state.game_over);
}

#[test]
fn rejected_moves_leave_state_unchanged() {
    let mut state = GameState::new();
    get_legal_move_list(&mut state);
    let before_turn = state.turn_counter;
    let r = take_turn(&mut state, (c(0, 0), c(0, 4)), PieceType::Queen);
    assert_eq!(r, Err(MoveError::NotInMoveList));
    assert_eq!(state.turn_counter, before_turn);
    assert_eq!(state.player_turn, 1);
}

#[test]
fn pawn_move_resets_fifty_move_count_and_knight_move_extends_it() {
    let mut state = GameState::new();
    get_legal_move_list(&mut state);
    mv(&mut state, (6, 0), (5, 2)); // white knight out
    assert_eq!(state.last_capture_or_pawn_move, 1);
    assert_eq!(state.table_states_since_last_capture_or_pawn_move.len(), 2);
    mv(&mut state, (4, 6), (4, 4)); // black pawn two forward
    assert_eq!(state.last_capture_or_pawn_move, 0);
    assert_eq!(state.table_states_since_last_capture_or_pawn_move.len(), 1);
}

#[test]
fn fifty_move_rule_at_exactly_one_hundred() {
    let mut state = GameState::new();
    get_legal_move_list(&mut state);
    state.last_capture_or_pawn_move = 99;
    assert_eq!(game_end(&state), None);
    state.last_capture_or_pawn_move = 100;
    assert_eq!(game_end(&state), Some(GameEnd::FiftyMoveRuleDraw));
}

#[test]
fn threefold_repetition_on_third_occurrence() {
    let mut state = GameState::new();
    get_legal_move_list(&mut state);
    let shuffle: [((usize, usize), (usize, usize)); 4] = [
        ((6, 0), (5, 2)), // white knight out
        ((6, 7), (5, 5)), // black knight out
        ((5, 2), (6, 0)), // white knight back
        ((5, 5), (6, 7)), // black knight back
    ];
    // second occurrence of the starting position: no draw yet
    for (from, to) in shuffle.iter() {
        mv(&mut state, *from, *to);
    }
    assert!(!game_end_by_repetition(&state));
    assert!(!state.game_over);
    // third occurrence: draw by repetition
    for (from, to) in shuffle.iter() {
        mv(&mut state, *from, *to);
    }
    assert!(game_end_by_repetition(&state));
    assert_eq!(game_end(&state), Some(GameEnd::RepetitionDraw));
    assert!(state.game_over);
}

#[test]
fn en_passant_appears_for_exactly_one_ply() {
    let mut state = GameState::new();
    get_legal_move_list(&mut state);
    mv(&mut state, (4, 1), (4, 3)); // e2-e4
    mv(&mut state, (0, 6), (0, 5)); // a7-a6
    mv(&mut state, (4, 3), (4, 4)); // e4-e5
    mv(&mut state, (3, 6), (3, 4)); // d7-d5, double step beside the e5 pawn
    assert!(state.en_passant_possible);
    let capture = (c(4, 4), c(3, 5)); // e5 pawn takes d6 en passant
    assert!(state.move_list.white.contains(&capture));
    // after any other move, the capture disappears
    let mut other = state.clone();
    mv(&mut other, (0, 1), (0, 2));
    assert!(!other.en_passant_possible);
    assert!(!other.move_list.white.contains(&capture));
    // and applying it removes the captured pawn from its own square
    assert!(take_turn(&mut state, capture, PieceType::Queen).is_ok());
    assert_eq!(state.board.kinds[3 + 5 * 8], PieceType::Pawn); // capturer on d6
    assert_eq!(state.board.kinds[3 + 4 * 8], PieceType::Empty); // d5 emptied
    assert_eq!(state.black_pieces.pawn, 7);
}

#[test]
fn kingside_castle_through_clear_safe_squares() {
    let mut state = GameState::new();
    get_legal_move_list(&mut state);
    let castle = (c(4, 0), c(6, 0));
    // blocked at the start
    assert!(!state.move_list.white.contains(&castle));
    mv(&mut state, (6, 0), (5, 2)); // Ng1-f3
    mv(&mut state, (0, 6), (0, 5));
    mv(&mut state, (4, 1), (4, 2)); // e2-e3
    mv(&mut state, (1, 6), (1, 5));
    mv(&mut state, (5, 0), (4, 1)); // Bf1-e2
    mv(&mut state, (2, 6), (2, 5));
    // squares between king and rook now empty, nothing attacks the path
    assert!(state.move_list.white.contains(&castle));
    mv(&mut state, (4, 0), (6, 0));
    assert_eq!(state.board.kinds[6], PieceType::King);
    assert_eq!(state.board.kinds[5], PieceType::Rook);
    assert_eq!(state.board.kinds[7], PieceType::Empty);
    assert!(!state.white_can_castle_kingside);
    assert!(!state.white_can_castle_queenside);
}

#[test]
fn castle_gone_after_rook_moved() {
    let mut state = GameState::new();
    get_legal_move_list(&mut state);
    mv(&mut state, (6, 0), (5, 2));
    mv(&mut state, (0, 6), (0, 5));
    mv(&mut state, (4, 1), (4, 2));
    mv(&mut state, (1, 6), (1, 5));
    mv(&mut state, (5, 0), (4, 1));
    mv(&mut state, (2, 6), (2, 5));
    mv(&mut state, (7, 0), (6, 0)); // Rh1-g1: the kingside right is lost
    mv(&mut state, (3, 6), (3, 5));
    assert!(!state.white_can_castle_kingside);
    mv(&mut state, (6, 0), (7, 0)); // rook returns home, the right stays lost
    mv(&mut state, (4, 6), (4, 5));
    assert!(!state.white_can_castle_kingside);
    assert!(!state.move_list.white.contains(&(c(4, 0), c(6, 0))));
}

#[test]
fn castle_blocked_by_attacked_transit_square() {
    let mut board = empty_board();
    place(&mut board, 4, 0, PieceType::King, PieceColour::White);
    place(&mut board, 7, 0, PieceType::Rook, PieceColour::White);
    place(&mut board, 4, 7, PieceType::King, PieceColour::Black);
    place(&mut board, 5, 6, PieceType::Rook, PieceColour::Black);
    let mut white = no_pieces();
    white.rook = 1;
    let mut black = no_pieces();
    black.rook = 1;
    let mut state = custom_state(board, white, black);
    state.white_can_castle_kingside = true;
    get_legal_move_list(&mut state);
    // the black rook on f7 sweeps f1: the king may not pass through it
    assert!(!state.move_list.white.contains(&(c(4, 0), c(6, 0))));
    // remove the attacker and the castle is available
    place(&mut state.board, 5, 6, PieceType::Empty, PieceColour::Empty);
    state.table_states_since_last_capture_or_pawn_move = vec![state.board.clone()];
    get_legal_move_list(&mut state);
    assert!(state.move_list.white.contains(&(c(4, 0), c(6, 0))));
}

#[test]
fn promotion_needs_a_valid_choice() {
    let mut board = empty_board();
    place(&mut board, 4, 0, PieceType::King, PieceColour::White);
    place(&mut board, 4, 7, PieceType::King, PieceColour::Black);
    place(&mut board, 0, 6, PieceType::Pawn, PieceColour::White);
    let mut white = no_pieces();
    white.pawn = 1;
    let mut state = custom_state(board, white, no_pieces());
    let push = (c(0, 6), c(0, 7));
    assert!(state.move_list.white.contains(&push));
    let rejected = take_turn(&mut state, push, PieceType::King);
    assert_eq!(rejected, Err(MoveError::InvalidPromotion));
    assert_eq!(state.board.kinds[0 + 6 * 8], PieceType::Pawn);
    let accepted = take_turn(&mut state, push, PieceType::Queen);
    assert!(accepted.is_ok());
    assert_eq!(state.board.kinds[0 + 7 * 8], PieceType::Queen);
    assert_eq!(state.white_pieces.queen, 1);
}

#[test]
fn checkmate_reported_for_the_winner() {
    let mut board = empty_board();
    place(&mut board, 0, 7, PieceType::King, PieceColour::Black);
    place(&mut board, 0, 0, PieceType::Rook, PieceColour::White);
    place(&mut board, 1, 0, PieceType::Rook, PieceColour::White);
    place(&mut board, 7, 0, PieceType::King, PieceColour::White);
    let mut white = no_pieces();
    white.rook = 2;
    let state = custom_state(board, white, no_pieces());
    assert!(state.black_in_check);
    assert!(state.move_list.black.is_empty());
    assert_eq!(game_end(&state), Some(GameEnd::Checkmate(PieceColour::White)));
}

#[test]
fn stalemate_reported_as_a_draw() {
    let mut board = empty_board();
    place(&mut board, 0, 7, PieceType::King, PieceColour::Black);
    place(&mut board, 2, 6, PieceType::Queen, PieceColour::White);
    place(&mut board, 7, 0, PieceType::King, PieceColour::White);
    let mut white = no_pieces();
    white.queen = 1;
    let state = custom_state(board, white, no_pieces());
    assert!(!state.black_in_check);
    assert!(state.move_list.black.is_empty());
    assert_eq!(game_end(&state), Some(GameEnd::Stalemate));
}

#[test]
fn insufficient_material_draws() {
    // king versus king
    let mut board = empty_board();
    place(&mut board, 4, 0, PieceType::King, PieceColour::White);
    place(&mut board, 4, 7, PieceType::King, PieceColour::Black);
    let state = custom_state(board.clone(), no_pieces(), no_pieces());
    assert_eq!(game_end(&state), Some(GameEnd::InsufficientMaterials));

    // king and single knight versus king
    let mut with_knight = board.clone();
    place(&mut with_knight, 1, 0, PieceType::Knight, PieceColour::White);
    let mut white = no_pieces();
    white.knight = 1;
    let state2 = custom_state(with_knight, white, no_pieces());
    assert_eq!(game_end(&state2), Some(GameEnd::InsufficientMaterials));

    // king and single bishop versus king
    let mut with_bishop = board.clone();
    place(&mut with_bishop, 2, 0, PieceType::Bishop, PieceColour::White);
    let mut white_b = no_pieces();
    white_b.bishop = 1;
    let state3 = custom_state(with_bishop, white_b, no_pieces());
    assert_eq!(game_end(&state3), Some(GameEnd::InsufficientMaterials));

    // king and rook versus king is not a draw
    let mut with_rook = board.clone();
    place(&mut with_rook, 3, 3, PieceType::Rook, PieceColour::White);
    let mut white_r = no_pieces();
    white_r.rook = 1;
    let state4 = custom_state(with_rook, white_r, no_pieces());
    assert_eq!(game_end(&state4), None);
}

#[test]
fn bishops_on_one_colour_cannot_mate() {
    let mut board = empty_board();
    place(&mut board, 4, 0, PieceType::King, PieceColour::White);
    place(&mut board, 4, 7, PieceType::King, PieceColour::Black);
    // c1 and e3 are both dark squares
    place(&mut board, 2, 0, PieceType::Bishop, PieceColour::White);
    place(&mut board, 4, 2, PieceType::Bishop, PieceColour::White);
    assert!(!bishop_can_checkmate(&custom_state(board.clone(), no_pieces(), no_pieces()),
        PieceColour::White));
    // c1 and d3 cover both square colours
    let mut mixed = board.clone();
    place(&mut mixed, 4, 2, PieceType::Empty, PieceColour::Empty);
    place(&mut mixed, 3, 2, PieceType::Bishop, PieceColour::White);
    assert!(bishop_can_checkmate(&custom_state(mixed, no_pieces(), no_pieces()),
        PieceColour::White));
}

#[test]
fn timeout_goes_to_the_other_side() {
    let mut state = GameState::new();
    get_legal_move_list(&mut state);
    state.white_timer = 0;
    assert_eq!(game_end(&state), Some(GameEnd::TimeOut(PieceColour::Black)));
    state.white_timer = 1;
    state.black_timer = 0;
    assert_eq!(game_end(&state), Some(GameEnd::TimeOut(PieceColour::White)));
}

#[test]
fn timeout_against_bare_king_is_a_draw() {
    let mut board = empty_board();
    place(&mut board, 4, 0, PieceType::King, PieceColour::White);
    place(&mut board, 4, 7, PieceType::King, PieceColour::Black);
    place(&mut board, 3, 3, PieceType::Rook, PieceColour::White);
    let mut white = no_pieces();
    white.rook = 1;
    let mut state = custom_state(board, white, no_pieces());
    // white's flag falls while black cannot possibly mate
    state.white_timer = 0;
    assert_eq!(game_end(&state), Some(GameEnd::InsufficientMaterials));
}

#[test]
fn clocks_and_modes() {
    let mut state = GameState::new();
    assert_eq!(state.white_timer, 1800000);
    state.update_chess_clock(500);
    assert_eq!(state.white_timer, 1799500);
    state.update_chess_clock(5000000000);
    assert_eq!(state.white_timer, 0);
    state.blitz_mode();
    assert_eq!(state.white_timer, 300000);
    assert_eq!(state.timer_increment, 1000);
    assert_eq!(state.mode, GameMode::Blitz);
    state.reset();
    assert_eq!(state.mode, GameMode::Blitz);
    assert_eq!(state.white_timer, 301000);
    assert_eq!(state.black_timer, 300000);
    assert_eq!(state.move_list.white.len(), 20);
}

#[test]
fn increment_credited_to_the_side_about_to_move() {
    let mut state = GameState::new();
    get_legal_move_list(&mut state);
    mv(&mut state, (4, 1), (4, 3));
    assert_eq!(state.black_timer, 1800000 + 30000);
    assert_eq!(state.white_timer, 1800000);
}

#[test]
fn turn_flip_helper() {
    let mut state = GameState::new();
    state.take_turn();
    assert_eq!(state.player_turn, 2);
    state.take_turn();
    assert_eq!(state.player_turn, 1);
}

#[test]
fn checkmate_of_white_names_black_as_winner() {
    let mut board = empty_board();
    place(&mut board, 7, 0, PieceType::King, PieceColour::White);
    place(&mut board, 7, 7, PieceType::Rook, PieceColour::Black);
    place(&mut board, 6, 7, PieceType::Rook, PieceColour::Black);
    place(&mut board, 0, 7, PieceType::King, PieceColour::Black);
    let mut black = no_pieces();
    black.rook = 2;
    let state = custom_state(board, no_pieces(), black);
    assert!(state.white_in_check);
    assert!(state.move_list.white.is_empty());
    assert_eq!(game_end(&state), Some(GameEnd::Checkmate(PieceColour::Black)));
}
