//! Rules-level tests: coordinates, move generation, blocking, and the
//! legality filter.

use cheess::board::{
    boards_equal, checker_board, generate_start_board, is_square_occupied, make_move,
    parse_coordinates_from_payload, Board, Coordinates, Move, PieceColour, PieceType,
};
use cheess::legality::{find_king, get_legal_move_list};
use cheess::movegen::{
    contains_move, generate_diagonal_moves, generate_lateral_moves, get_valid_moves_for_piece,
    move_distance, piece_specific_moves, separate_direction_from_movelist,
    slice_valid_moves_at_collision, Bishop, King, Knight, MoveDirection, Pawn, Queen, Rook,
};
use cheess::state::GameState;

fn c(x: usize, y: usize) -> Coordinates {
    Coordinates { x, y }
}

fn empty_board() -> Board {
    let mut kinds = Vec::new();
    let mut colours = Vec::new();
    for _ in 0..64 {
        kinds.push(PieceType::Empty);
        colours.push(PieceColour::Empty);
    }
    Board { kinds, colours }
}

fn place(board: &mut Board, x: usize, y: usize, kind: PieceType, colour: PieceColour) {
    board.kinds[y * 8 + x] = kind;
    board.colours[y * 8 + x] = colour;
}

/// A board with only the two kings, far apart.
fn kings_board() -> Board {
    let mut b = empty_board();
    place(&mut b, 4, 0, PieceType::King, PieceColour::White);
    place(&mut b, 4, 7, PieceType::King, PieceColour::Black);
    b
}

fn has_move(list: &Vec<Move>, from: Coordinates, to: Coordinates) -> bool {
    list.iter().any(|m| m.0 == from && m.1 == to)
}

#[test]
fn square_index_round_trip() {
    for i in 0..64 {
        let coord = Coordinates::from_index(i);
        assert!(coord.x < 8 && coord.y < 8);
        assert_eq!(coord.to_index(), i);
    }
}

#[test]
fn run_off_side_detection() {
    assert!(c(3, 4).does_move_run_off_side(c(2, 4)).is_ok());
    assert!(c(3, 4).does_move_run_off_side(c(4, 5)).is_err());
}

#[test]
fn checker_board_colours() {
    assert!(!checker_board(c(0, 0)));
    assert!(checker_board(c(1, 0)));
    assert!(checker_board(c(0, 1)));
    assert!(!checker_board(c(7, 7)));
}

#[test]
fn payload_to_coordinates() {
    let m = parse_coordinates_from_payload(vec![12, 28]);
    assert_eq!(m.0, c(4, 1));
    assert_eq!(m.1, c(4, 3));
}

#[test]
fn occupancy_probe() {
    let b = generate_start_board();
    // white pawn e2 moving to empty e4: not occupied
    assert_eq!(is_square_occupied((c(4, 1), c(4, 3)), &b), (false, false));
    // e2 to d1 (own queen): occupied, same colour
    assert_eq!(is_square_occupied((c(4, 1), c(3, 0)), &b), (true, true));
    // e2 to e7 (black pawn): occupied, other colour
    assert_eq!(is_square_occupied((c(4, 1), c(4, 6)), &b), (true, false));
}

#[test]
fn lateral_and_diagonal_candidates() {
    let b = generate_start_board();
    let lat = generate_lateral_moves(c(0, 0), &b);
    assert_eq!(lat.len(), 14);
    let diag = generate_diagonal_moves(c(0, 0), &b);
    // the whole long diagonal, the origin square included
    assert_eq!(diag.len(), 8);
    assert!(has_move(&diag, c(0, 0), c(7, 7)));
}

#[test]
fn direction_partition_is_sorted() {
    let b = kings_board();
    let mut list = generate_lateral_moves(c(3, 3), &b);
    list.append(&mut generate_diagonal_moves(c(3, 3), &b));
    let north = separate_direction_from_movelist(&list, MoveDirection::North);
    assert_eq!(north.len(), 3);
    assert_eq!(north[0].1, c(3, 2));
    assert_eq!(north[1].1, c(3, 1));
    assert_eq!(north[2].1, c(3, 0));
    let north_east = separate_direction_from_movelist(&list, MoveDirection::NorthEast);
    assert_eq!(north_east.len(), 3);
    assert_eq!(north_east[0].1, c(4, 2));
}

#[test]
fn collision_slicing() {
    let mut b = kings_board();
    place(&mut b, 3, 5, PieceType::Pawn, PieceColour::Black);
    place(&mut b, 3, 1, PieceType::Pawn, PieceColour::White);
    // a white rook on d4 looking south: d5 empty, d6 enemy pawn (kept), stop
    let list = vec![(c(3, 3), c(3, 4)), (c(3, 3), c(3, 5)), (c(3, 3), c(3, 6))];
    let mut with_colour = b.clone();
    place(&mut with_colour, 3, 3, PieceType::Rook, PieceColour::White);
    let sliced = slice_valid_moves_at_collision(list, &with_colour);
    assert_eq!(sliced.len(), 2);
    assert_eq!(sliced[1].1, c(3, 5));
    // looking north: d3 friendly pawn blocks immediately
    let list_north = vec![(c(3, 3), c(3, 2)), (c(3, 3), c(3, 1)), (c(3, 3), c(3, 0))];
    let sliced_north = slice_valid_moves_at_collision(list_north, &with_colour);
    assert_eq!(sliced_north.len(), 1);
    assert_eq!(sliced_north[0].1, c(3, 2));
}

#[test]
fn rook_moves_blocked_at_start() {
    let b = generate_start_board();
    let rook = Rook::get_valid_moves(&b, c(0, 0));
    assert!(rook.is_empty());
}

#[test]
fn rook_moves_on_open_file() {
    let mut b = kings_board();
    place(&mut b, 0, 0, PieceType::Rook, PieceColour::White);
    place(&mut b, 0, 3, PieceType::Pawn, PieceColour::Black);
    let rook = Rook::get_valid_moves(&b, c(0, 0));
    // up to and including the black pawn, plus the whole first rank short of
    // the white king on e1
    assert!(has_move(&rook, c(0, 0), c(0, 1)));
    assert!(has_move(&rook, c(0, 0), c(0, 2)));
    assert!(has_move(&rook, c(0, 0), c(0, 3)));
    assert!(!has_move(&rook, c(0, 0), c(0, 4)));
    assert!(has_move(&rook, c(0, 0), c(3, 0)));
    assert!(!has_move(&rook, c(0, 0), c(4, 0)));
    assert_eq!(rook.len(), 6);
}

#[test]
fn sliding_moves_never_jump() {
    // every generated sliding move has only empty squares strictly between
    // origin and destination
    let mut b = generate_start_board();
    place(&mut b, 3, 3, PieceType::Queen, PieceColour::White);
    let queen = Queen::get_valid_moves(&b, c(3, 3));
    assert!(!queen.is_empty());
    for m in &queen {
        let dx = m.1.x as i32 - m.0.x as i32;
        let dy = m.1.y as i32 - m.0.y as i32;
        let k = dx.abs().max(dy.abs());
        for j in 1..k {
            let x = (m.0.x as i32 + j * dx.signum()) as usize;
            let y = (m.0.y as i32 + j * dy.signum()) as usize;
            assert_eq!(b.colours[y * 8 + x], PieceColour::Empty);
        }
    }
}

#[test]
fn knight_moves_do_not_wrap() {
    let b = kings_board();
    let mut with_knight = b.clone();
    place(&mut with_knight, 0, 0, PieceType::Knight, PieceColour::White);
    let knight = Knight::get_valid_moves(&with_knight, c(0, 0));
    assert_eq!(knight.len(), 2);
    assert!(has_move(&knight, c(0, 0), c(1, 2)));
    assert!(has_move(&knight, c(0, 0), c(2, 1)));
}

#[test]
fn king_single_steps() {
    let b = kings_board();
    let king = King::get_valid_moves(&b, c(4, 0));
    assert_eq!(king.len(), 5);
    assert!(has_move(&king, c(4, 0), c(3, 0)));
    assert!(has_move(&king, c(4, 0), c(4, 1)));
    assert!(!has_move(&king, c(4, 0), c(4, 2)));
}

#[test]
fn pawn_single_and_double_step() {
    let b = generate_start_board();
    let pawn = Pawn::pawn_specific_moves(c(4, 1), &b);
    assert_eq!(pawn.len(), 2);
    assert!(has_move(&pawn, c(4, 1), c(4, 2)));
    assert!(has_move(&pawn, c(4, 1), c(4, 3)));
}

#[test]
fn pawn_blocked_and_capturing() {
    let mut b = kings_board();
    place(&mut b, 4, 3, PieceType::Pawn, PieceColour::White);
    place(&mut b, 4, 4, PieceType::Pawn, PieceColour::Black);
    place(&mut b, 3, 4, PieceType::Pawn, PieceColour::Black);
    place(&mut b, 5, 4, PieceType::Pawn, PieceColour::White);
    let pawn = Pawn::pawn_specific_moves(c(4, 3), &b);
    // forward blocked entirely; only the enemy diagonal is kept
    assert_eq!(pawn.len(), 1);
    assert!(has_move(&pawn, c(4, 3), c(3, 4)));
}

#[test]
fn pawn_collision_cases() {
    let mut b = kings_board();
    place(&mut b, 3, 3, PieceType::Pawn, PieceColour::White);
    place(&mut b, 3, 5, PieceType::Pawn, PieceColour::Black);
    let vertical = vec![(c(3, 3), c(3, 4)), (c(3, 3), c(3, 5))];
    let kept = Pawn::pawn_collision(vertical, MoveDirection::South, &b);
    // the second candidate is occupied: a pawn never captures forward
    assert_eq!(kept.len(), 1);
    place(&mut b, 4, 4, PieceType::Pawn, PieceColour::Black);
    let diagonal = vec![(c(3, 3), c(4, 4))];
    let kept_diag = Pawn::pawn_collision(diagonal, MoveDirection::SouthEast, &b);
    assert_eq!(kept_diag.len(), 1);
    let empty_diag = vec![(c(3, 3), c(2, 4))];
    let kept_empty = Pawn::pawn_collision(empty_diag, MoveDirection::SouthWest, &b);
    assert!(kept_empty.is_empty());
}

#[test]
fn direction_filter_matches() {
    let north = MoveDirection::North;
    assert!(north.matches_move(&(c(3, 3), c(3, 1))));
    assert!(!north.matches_move(&(c(3, 3), c(3, 5))));
    assert!(!north.matches_move(&(c(3, 3), c(4, 1))));
    assert_eq!(move_distance(&(c(3, 3), c(3, 1))), 2);
    assert_eq!(move_distance(&(c(1, 1), c(4, 4))), 3);
}

#[test]
fn piece_specific_moves_obey_directions() {
    let mut b = kings_board();
    place(&mut b, 3, 3, PieceType::Rook, PieceColour::White);
    let mut directions = Vec::new();
    directions.push(MoveDirection::North);
    let moves = piece_specific_moves(directions, c(3, 3), &b);
    assert_eq!(moves.len(), 3);
    assert!(has_move(&moves, c(3, 3), c(3, 0)));
    assert!(!has_move(&moves, c(3, 3), c(3, 4)));
}

#[test]
fn contains_move_is_exact() {
    let list = vec![(c(0, 0), c(0, 1))];
    assert!(contains_move(&list, &(c(0, 0), c(0, 1))));
    assert!(!contains_move(&list, &(c(0, 0), c(1, 1))));
}

#[test]
fn start_position_counts() {
    let b = generate_start_board();
    let moves = get_valid_moves_for_piece(&b);
    assert_eq!(moves.white.len(), 20);
    assert_eq!(moves.black.len(), 20);
}

#[test]
fn twenty_legal_moves_each_at_start() {
    let mut state = GameState::new();
    get_legal_move_list(&mut state);
    assert_eq!(state.move_list.white.len(), 20);
    assert_eq!(state.move_list.black.len(), 20);
    assert!(!state.white_in_check && !state.black_in_check);
    assert!(!state.en_passant_possible);
}

#[test]
fn pinned_rook_cannot_leave_the_file() {
    let mut state = GameState::new();
    state.board = kings_board();
    place(&mut state.board, 4, 1, PieceType::Rook, PieceColour::White);
    place(&mut state.board, 4, 6, PieceType::Rook, PieceColour::Black);
    state.white_can_castle_kingside = false;
    state.white_can_castle_queenside = false;
    state.black_can_castle_kingside = false;
    state.black_can_castle_queenside = false;
    get_legal_move_list(&mut state);
    // the white rook on e2 is pinned to the king on e1: it may slide up the
    // e-file but never sideways
    assert!(has_move(&state.move_list.white, c(4, 1), c(4, 2)));
    assert!(has_move(&state.move_list.white, c(4, 1), c(4, 6)));
    assert!(!has_move(&state.move_list.white, c(4, 1), c(3, 1)));
    assert!(!has_move(&state.move_list.white, c(4, 1), c(7, 1)));
}

#[test]
fn no_legal_move_leaves_own_king_attacked() {
    // play a position and check, for every legal white move, that applying
    // it leaves the white king unattacked by any black pseudo-legal reply
    let mut state = GameState::new();
    state.board = kings_board();
    place(&mut state.board, 4, 1, PieceType::Rook, PieceColour::White);
    place(&mut state.board, 4, 6, PieceType::Rook, PieceColour::Black);
    place(&mut state.board, 2, 2, PieceType::Knight, PieceColour::White);
    state.white_can_castle_kingside = false;
    state.white_can_castle_queenside = false;
    state.black_can_castle_kingside = false;
    state.black_can_castle_queenside = false;
    get_legal_move_list(&mut state);
    for m in state.move_list.white.clone() {
        let simulated = make_move(&state.board, m);
        let replies = get_valid_moves_for_piece(&simulated);
        let king_index = find_king(&simulated, PieceColour::White);
        let king = Coordinates::from_index(king_index);
        assert!(!replies.black.iter().any(|r| r.1 == king));
    }
}

#[test]
fn make_move_relocates_castling_rook() {
    let mut b = kings_board();
    place(&mut b, 7, 0, PieceType::Rook, PieceColour::White);
    let after = make_move(&b, (c(4, 0), c(6, 0)));
    assert_eq!(after.kinds[6], PieceType::King);
    assert_eq!(after.kinds[5], PieceType::Rook);
    assert_eq!(after.kinds[7], PieceType::Empty);
    assert_eq!(after.kinds[4], PieceType::Empty);
    assert_eq!(after.colours[5], PieceColour::White);
}

#[test]
fn boards_equal_compares_squares() {
    let a = generate_start_board();
    let b = generate_start_board();
    assert!(boards_equal(&a, &b));
    let mut b2 = generate_start_board();
    place(&mut b2, 4, 3, PieceType::Pawn, PieceColour::White);
    assert!(!boards_equal(&a, &b2));
}

#[test]
fn is_move_a_castle_detection() {
    let mut b = kings_board();
    place(&mut b, 7, 0, PieceType::Rook, PieceColour::White);
    assert!(King::is_move_a_castle((c(4, 0), c(6, 0)), &b));
    assert!(!King::is_move_a_castle((c(4, 0), c(5, 0)), &b));
    assert!(!King::is_move_a_castle((c(7, 0), c(5, 0)), &b));
}
