//! The legality filter and check detection: a pseudo-legal move is legal
//! only if applying it does not leave the mover's own king attacked on the
//! opponent's following pseudo-legal move set.

use vstd::prelude::*;
use crate::board::{
    Board, BoardView, Coordinates, Move, MoveList, PieceColour, PieceType, board_after, board_wf,
    colour_at, coord_at, coord_wf, is_castle_move, is_en_passant_capture, kind_at, make_move,
    opposite_colour, sq,
};
use crate::movegen::{
    PlayerValidMoves, attacks, get_valid_moves_for_piece, has_king, in_check, is_king_of, King,
    king_square, legal_attacks, legal_basic, pseudo_move, unique_king,
};
use crate::state::GameState;

verus! {

broadcast use vstd::seq_lib::lemma_seq_contains_after_push;

/// Find the king of the given colour: the lowest square index holding it.
pub fn find_king(board: &Board, colour: PieceColour) -> (r: usize)
    requires
        board_wf(board@),
        has_king(board@, colour),
    ensures
        is_king_of(board@, colour, r as int),
        unique_king(board@, colour) ==> r as int == king_square(board@, colour),
{
    let mut i: usize = 0;
    while i < 64
        invariant
            i <= 64,
            board_wf(board@),
            has_king(board@, colour),
            forall|j: int| 0 <= j < i ==> !is_king_of(board@, colour, j),
        decreases 64 - i,
    {
        if matches!(board.kinds[i], PieceType::King) && board.colours[i] == colour {
            proof {
                assert(is_king_of(board@, colour, i as int));
                if unique_king(board@, colour) {
                    let ks = king_square(board@, colour);
                    assert(is_king_of(board@, colour, ks));
                    assert(i as int == ks);
                }
            }
            return i;
        }
        i += 1;
    }
    proof {
        let w = choose|j: int| is_king_of(board@, colour, j);
        assert(!is_king_of(board@, colour, w));
        assert(false);
    }
    0
}

/// Whether any move of the list ends on `target`.
fn list_attacks_square(list: &MoveList, target: Coordinates) -> (r: bool)
    ensures
        r == exists|i: int| 0 <= i < list@.len() && list@[i].1 == target,
{
    let mut i: usize = 0;
    while i < list.len()
        invariant
            i <= list@.len(),
            forall|j: int| 0 <= j < i ==> list@[j].1 != target,
        decreases list@.len() - i,
    {
        if list[i].1 == target {
            return true;
        }
        i += 1;
    }
    false
}

/// Copy a move list.
pub fn copy_moves(list: &MoveList) -> (r: MoveList)
    ensures
        r@ == list@,
{
    let mut r: MoveList = Vec::new();
    let mut i: usize = 0;
    while i < list.len()
        invariant
            i <= list@.len(),
            r@ =~= list@.take(i as int),
        decreases list@.len() - i,
    {
        r.push(list[i]);
        i += 1;
    }
    proof {
        assert(r@ =~= list@);
    }
    r
}

/// Applying a pseudo-legal move of one's own colour neither removes nor
/// duplicates one's own king: it stays where it was, or follows the move
/// when the king itself is the mover.
pub proof fn lemma_own_move_preserves_king(v: BoardView, m: Move, c: PieceColour)
    requires
        board_wf(v),
        pseudo_move(v, m, c),
        unique_king(v, c),
    ensures
        unique_king(board_after(v, m), c),
        king_square(board_after(v, m), c) == if sq(m.0) == king_square(v, c) {
            sq(m.1)
        } else {
            king_square(v, c)
        },
{
    let b = board_after(v, m);
    let ks = king_square(v, c);
    assert(is_king_of(v, c, ks));
    assert(coord_wf(m.1) && m.1 != m.0) by {
        crate::movegen::lemma_pseudo_dest_wf(v, m.0, m.1);
    }
    assert(!is_castle_move(v, m) && !is_en_passant_capture(v, m)) by {
        crate::movegen::lemma_pseudo_dest_wf(v, m.0, m.1);
    }
    assert(colour_at(v, m.1) != c) by {
        crate::movegen::lemma_pseudo_dest_wf(v, m.0, m.1);
    }
    assert(sq(m.0) != sq(m.1));
    assert(sq(m.1) != ks);
    if sq(m.0) == ks {
        assert(is_king_of(b, c, sq(m.1)));
        assert forall|i: int| is_king_of(b, c, i) implies i == sq(m.1) by {
            if i != sq(m.1) && i != sq(m.0) {
                assert(is_king_of(v, c, i));
            }
        }
        assert(is_king_of(b, c, king_square(b, c)));
    } else {
        assert(kind_at(v, m.0) != PieceType::King || colour_at(v, m.0) != c) by {
            if kind_at(v, m.0) == PieceType::King && colour_at(v, m.0) == c {
                assert(is_king_of(v, c, sq(m.0)));
            }
        }
        assert(is_king_of(b, c, ks));
        assert forall|i: int| is_king_of(b, c, i) implies i == ks by {
            if i != sq(m.1) && i != sq(m.0) {
                assert(is_king_of(v, c, i));
            }
        }
        assert(is_king_of(b, c, king_square(b, c)));
    }
}

/// The legality filter: of one colour's pseudo-legal moves, keep exactly
/// those that do not leave that colour's own king attacked on the opponent's
/// following pseudo-legal move set. Every kept move is simulated on a
/// disposable copy of the board; the authoritative state is never touched.
///
/// The second postcondition is the no-self-check guarantee: no move of the
/// returned list leaves the mover's king capturable.
pub fn remove_check_positions(list: MoveList, state: &GameState) -> (r: MoveList)
    requires
        board_wf(state.board@),
        list@.len() > 0,
        coord_wf(list@[0].0),
        colour_at(state.board@, list@[0].0) != PieceColour::Empty,
        forall|i: int|
            0 <= i < list@.len() ==> pseudo_move(
                state.board@,
                #[trigger] list@[i],
                colour_at(state.board@, list@[0].0),
            ),
        unique_king(state.board@, colour_at(state.board@, list@[0].0)),
    ensures
        forall|m: Move| #[trigger]
            r@.contains(m) <==> (list@.contains(m) && legal_basic(
                state.board@,
                m,
                colour_at(state.board@, list@[0].0),
            )),
        forall|m: Move| #[trigger]
            r@.contains(m) ==> !in_check(
                board_after(state.board@, m),
                colour_at(state.board@, list@[0].0),
            ),
{
    let ghost v = state.board@;
    let first_move = list[0];
    let origin = first_move.0;
    let move_colour = state.board.colours[origin.to_index()];
    let ghost c = colour_at(v, list@[0].0);
    let mut r: MoveList = Vec::new();
    let mut i: usize = 0;
    while i < list.len()
        invariant
            i <= list@.len(),
            board_wf(v),
            v == state.board@,
            list@.len() > 0,
            move_colour == c,
            c == colour_at(v, list@[0].0),
            c != PieceColour::Empty,
            unique_king(v, c),
            forall|j: int| 0 <= j < list@.len() ==> pseudo_move(v, #[trigger] list@[j], c),
            forall|m: Move| #[trigger]
                r@.contains(m) <==> (list@.take(i as int).contains(m) && legal_basic(v, m, c)),
        decreases list@.len() - i,
    {
        let translation = list[i];
        proof {
            assert(pseudo_move(v, list@[i as int], c));
            crate::movegen::lemma_pseudo_dest_wf(v, translation.0, translation.1);
        }
        let simulated_board = make_move(&state.board, translation);
        let simulated_player_moves = get_valid_moves_for_piece(&simulated_board);
        proof {
            lemma_own_move_preserves_king(v, translation, c);
        }
        let king_index = find_king(&simulated_board, move_colour);
        let king_coord = Coordinates::from_index(king_index);
        let exposed = if matches!(move_colour, PieceColour::White) {
            list_attacks_square(&simulated_player_moves.black, king_coord)
        } else {
            list_attacks_square(&simulated_player_moves.white, king_coord)
        };
        proof {
            let b = board_after(v, translation);
            let opp = opposite_colour(c);
            assert(king_coord == coord_at(king_square(b, c)));
            let opp_list = if c == PieceColour::White {
                simulated_player_moves.black@
            } else {
                simulated_player_moves.white@
            };
            assert(exposed == exists|j: int|
                0 <= j < opp_list.len() && opp_list[j].1 == king_coord);
            if exposed {
                let j = choose|j: int| 0 <= j < opp_list.len() && opp_list[j].1 == king_coord;
                assert(opp_list.contains(opp_list[j]));
                assert(pseudo_move(b, opp_list[j], opp));
                assert(attacks(b, opp, king_coord));
                assert(in_check(b, c));
            } else {
                if in_check(b, c) {
                    let am = choose|am: Move| pseudo_move(b, am, opp) && am.1 == coord_at(
                        king_square(b, c),
                    );
                    assert(opp_list.contains(am));
                    let j = choose|j: int| 0 <= j < opp_list.len() && opp_list[j] == am;
                    assert(opp_list[j].1 == king_coord);
                }
                assert(!in_check(b, c));
            }
        }
        if !exposed {
            r.push(translation);
        }
        proof {
            assert(list@.take(i + 1) =~= list@.take(i as int).push(list@[i as int]));
        }
        i += 1;
    }
    proof {
        assert(list@.take(list@.len() as int) =~= list@);
    }
    r
}

/// Back rank of colour `c`.
pub open spec fn back_rank(c: PieceColour) -> int {
    if c == PieceColour::White {
        0
    } else {
        7
    }
}

/// Kingside castling geometry for colour `c`: its rook stands in the
/// kingside corner and the two squares between king and rook are empty.
pub open spec fn kingside_clear(v: BoardView, c: PieceColour) -> bool {
    let y = back_rank(c);
    &&& v.kinds[y * 8 + 7] == PieceType::Rook
    &&& v.colours[y * 8 + 7] == c
    &&& v.colours[y * 8 + 5] == PieceColour::Empty
    &&& v.colours[y * 8 + 6] == PieceColour::Empty
}

/// Queenside castling geometry for colour `c`: its rook stands in the
/// queenside corner and the three squares between king and rook are empty.
pub open spec fn queenside_clear(v: BoardView, c: PieceColour) -> bool {
    let y = back_rank(c);
    &&& v.kinds[y * 8] == PieceType::Rook
    &&& v.colours[y * 8] == c
    &&& v.colours[y * 8 + 1] == PieceColour::Empty
    &&& v.colours[y * 8 + 2] == PieceColour::Empty
    &&& v.colours[y * 8 + 3] == PieceColour::Empty
}

/// Some move of `list` ends on the kingside castling path of colour `c`:
/// the king's start, transit or end square.
pub open spec fn kingside_transit_hit(list: Seq<Move>, c: PieceColour) -> bool {
    exists|i: int|
        0 <= i < list.len() && (list[i].1 == (Coordinates { x: 4, y: back_rank(c) as usize })
            || list[i].1 == (Coordinates { x: 5, y: back_rank(c) as usize }) || list[i].1
            == (Coordinates { x: 6, y: back_rank(c) as usize }))
}

/// Some move of `list` ends on the queenside castling path of colour `c`.
pub open spec fn queenside_transit_hit(list: Seq<Move>, c: PieceColour) -> bool {
    exists|i: int|
        0 <= i < list.len() && (list[i].1 == (Coordinates { x: 2, y: back_rank(c) as usize })
            || list[i].1 == (Coordinates { x: 3, y: back_rank(c) as usize }) || list[i].1
            == (Coordinates { x: 4, y: back_rank(c) as usize }))
}

/// The kingside castle move of colour `c`: king from file 4 to file 6.
pub open spec fn kingside_castle_move(c: PieceColour) -> Move {
    (
        Coordinates { x: 4, y: back_rank(c) as usize },
        Coordinates { x: 6, y: back_rank(c) as usize },
    )
}

/// The queenside castle move of colour `c`: king from file 4 to file 2.
pub open spec fn queenside_castle_move(c: PieceColour) -> Move {
    (
        Coordinates { x: 4, y: back_rank(c) as usize },
        Coordinates { x: 2, y: back_rank(c) as usize },
    )
}

/// Full kingside castling eligibility of colour `c`: the persistent right is
/// intact, the geometry is clear, and no move of the opponent's list ends on
/// the king's path.
pub open spec fn kingside_allowed(
    v: BoardView,
    rights: bool,
    opponent: Seq<Move>,
    c: PieceColour,
) -> bool {
    rights && kingside_clear(v, c) && !kingside_transit_hit(opponent, c)
}

/// Full queenside castling eligibility of colour `c`.
pub open spec fn queenside_allowed(
    v: BoardView,
    rights: bool,
    opponent: Seq<Move>,
    c: PieceColour,
) -> bool {
    rights && queenside_clear(v, c) && !queenside_transit_hit(opponent, c)
}

/// Whether any move of the list ends on one of three given squares.
fn transit_hit(list: &MoveList, a: Coordinates, b: Coordinates, c: Coordinates) -> (r: bool)
    ensures
        r == exists|i: int|
            0 <= i < list@.len() && (list@[i].1 == a || list@[i].1 == b || list@[i].1 == c),
{
    let mut i: usize = 0;
    while i < list.len()
        invariant
            i <= list@.len(),
            forall|j: int| 0 <= j < i ==> list@[j].1 != a && list@[j].1 != b && list@[j].1 != c,
        decreases list@.len() - i,
    {
        let d = list[i].1;
        if d == a || d == b || d == c {
            return true;
        }
        i += 1;
    }
    false
}

impl King {
    /// Whether the given move list attacks the king of the colour opposite
    /// to the list's own colour, recording the answer in that king's
    /// in-check flag. The board is left untouched.
    pub fn check_checker(state: &mut GameState, move_list: MoveList) -> (r: bool)
        requires
            board_wf(old(state).board@),
            move_list@.len() > 0,
            coord_wf(move_list@[0].0),
            colour_at(old(state).board@, move_list@[0].0) != PieceColour::Empty,
            unique_king(
                old(state).board@,
                opposite_colour(colour_at(old(state).board@, move_list@[0].0)),
            ),
        ensures
            r == (exists|i: int|
                0 <= i < move_list@.len() && move_list@[i].1 == coord_at(
                    king_square(
                        old(state).board@,
                        opposite_colour(colour_at(old(state).board@, move_list@[0].0)),
                    ),
                )),
            opposite_colour(colour_at(old(state).board@, move_list@[0].0)) == PieceColour::White
                ==> *final(state) == (GameState { white_in_check: r, ..*old(state) }),
            opposite_colour(colour_at(old(state).board@, move_list@[0].0)) == PieceColour::Black
                ==> *final(state) == (GameState { black_in_check: r, ..*old(state) }),
    {
        let first_move = move_list[0];
        let first_move_origin = first_move.0;
        let colour_of_moves = state.board.colours[first_move_origin.to_index()];
        let target_colour = if matches!(colour_of_moves, PieceColour::White) {
            PieceColour::Black
        } else {
            PieceColour::White
        };
        let king_index = find_king(&state.board, target_colour);
        let king_coord = Coordinates::from_index(king_index);
        let is_in_check = list_attacks_square(&move_list, king_coord);
        if matches!(target_colour, PieceColour::White) {
            state.white_in_check = is_in_check;
        } else {
            state.black_in_check = is_in_check;
        }
        is_in_check
    }

    /// Kingside castling eligibility of both colours, except for the
    /// persistent rights: the geometry is clear and no move of the
    /// opponent's list ends on the king's start, transit or end square.
    pub fn can_castle_kingside(move_list: &PlayerValidMoves, state: &GameState) -> (r: (
        bool,
        bool,
    ))
        requires
            board_wf(state.board@),
        ensures
            r.0 == (kingside_clear(state.board@, PieceColour::White) && !kingside_transit_hit(
                move_list.black@,
                PieceColour::White,
            )),
            r.1 == (kingside_clear(state.board@, PieceColour::Black) && !kingside_transit_hit(
                move_list.white@,
                PieceColour::Black,
            )),
    {
        let white_clear = matches!(state.board.kinds[7], PieceType::Rook) && state.board.colours[7]
            == PieceColour::White && matches!(state.board.colours[5], PieceColour::Empty)
            && matches!(state.board.colours[6], PieceColour::Empty);
        let black_clear = matches!(state.board.kinds[63], PieceType::Rook)
            && state.board.colours[63] == PieceColour::Black && matches!(
            state.board.colours[61],
            PieceColour::Empty,
        ) && matches!(state.board.colours[62], PieceColour::Empty);
        let white_path_hit = transit_hit(
            &move_list.black,
            Coordinates { x: 4, y: 0 },
            Coordinates { x: 5, y: 0 },
            Coordinates { x: 6, y: 0 },
        );
        let black_path_hit = transit_hit(
            &move_list.white,
            Coordinates { x: 4, y: 7 },
            Coordinates { x: 5, y: 7 },
            Coordinates { x: 6, y: 7 },
        );
        (white_clear && !white_path_hit, black_clear && !black_path_hit)
    }

    /// Queenside castling eligibility of both colours, except for the
    /// persistent rights.
    pub fn can_castle_queenside(move_list: &PlayerValidMoves, state: &GameState) -> (r: (
        bool,
        bool,
    ))
        requires
            board_wf(state.board@),
        ensures
            r.0 == (queenside_clear(state.board@, PieceColour::White) && !queenside_transit_hit(
                move_list.black@,
                PieceColour::White,
            )),
            r.1 == (queenside_clear(state.board@, PieceColour::Black) && !queenside_transit_hit(
                move_list.white@,
                PieceColour::Black,
            )),
    {
        let white_clear = matches!(state.board.kinds[0], PieceType::Rook) && state.board.colours[0]
            == PieceColour::White && matches!(state.board.colours[1], PieceColour::Empty)
            && matches!(state.board.colours[2], PieceColour::Empty) && matches!(
            state.board.colours[3],
            PieceColour::Empty,
        );
        let black_clear = matches!(state.board.kinds[56], PieceType::Rook)
            && state.board.colours[56] == PieceColour::Black && matches!(
            state.board.colours[57],
            PieceColour::Empty,
        ) && matches!(state.board.colours[58], PieceColour::Empty) && matches!(
            state.board.colours[59],
            PieceColour::Empty,
        );
        let white_path_hit = transit_hit(
            &move_list.black,
            Coordinates { x: 2, y: 0 },
            Coordinates { x: 3, y: 0 },
            Coordinates { x: 4, y: 0 },
        );
        let black_path_hit = transit_hit(
            &move_list.white,
            Coordinates { x: 2, y: 7 },
            Coordinates { x: 3, y: 7 },
            Coordinates { x: 4, y: 7 },
        );
        (white_clear && !white_path_hit, black_clear && !black_path_hit)
    }

    /// Add each colour's eligible castle moves on top of its filtered legal
    /// list. Eligibility combines the persistent rights with the geometric
    /// and attack conditions of `can_castle_kingside` / `can_castle_queenside`.
    pub fn append_castle_moves(move_list: PlayerValidMoves, state: &GameState) -> (r:
        PlayerValidMoves)
        requires
            board_wf(state.board@),
        ensures
            forall|m: Move| #[trigger]
                r.white@.contains(m) <==> (move_list.white@.contains(m) || (kingside_allowed(
                    state.board@,
                    state.white_can_castle_kingside,
                    move_list.black@,
                    PieceColour::White,
                ) && m == kingside_castle_move(PieceColour::White)) || (queenside_allowed(
                    state.board@,
                    state.white_can_castle_queenside,
                    move_list.black@,
                    PieceColour::White,
                ) && m == queenside_castle_move(PieceColour::White))),
            forall|m: Move| #[trigger]
                r.black@.contains(m) <==> (move_list.black@.contains(m) || (kingside_allowed(
                    state.board@,
                    state.black_can_castle_kingside,
                    move_list.white@,
                    PieceColour::Black,
                ) && m == kingside_castle_move(PieceColour::Black)) || (queenside_allowed(
                    state.board@,
                    state.black_can_castle_queenside,
                    move_list.white@,
                    PieceColour::Black,
                ) && m == queenside_castle_move(PieceColour::Black))),
    {
        let kingside = King::can_castle_kingside(&move_list, state);
        let queenside = King::can_castle_queenside(&move_list, state);
        let mut output_move_list = PlayerValidMoves { white: move_list.white, black: move_list.black };
        if state.white_can_castle_kingside && kingside.0 {
            output_move_list.white.push((Coordinates { x: 4, y: 0 }, Coordinates { x: 6, y: 0 }));
        }
        if state.black_can_castle_kingside && kingside.1 {
            output_move_list.black.push((Coordinates { x: 4, y: 7 }, Coordinates { x: 6, y: 7 }));
        }
        if state.white_can_castle_queenside && queenside.0 {
            output_move_list.white.push((Coordinates { x: 4, y: 0 }, Coordinates { x: 2, y: 0 }));
        }
        if state.black_can_castle_queenside && queenside.1 {
            output_move_list.black.push((Coordinates { x: 4, y: 7 }, Coordinates { x: 2, y: 7 }));
        }
        output_move_list
    }
}

/// The immediately preceding move was a double-step pawn advance: the piece
/// now on its destination is a pawn that came two ranks straight forward
/// from its home rank, landing on rank 3 (white) or rank 4 (black).
pub open spec fn ep_double_step(v: BoardView, lm: Move) -> bool {
    &&& kind_at(v, lm.1) == PieceType::Pawn
    &&& lm.0.x == lm.1.x
    &&& ((lm.0.y == 1 && lm.1.y == 3) || (lm.0.y == 6 && lm.1.y == 4))
}

/// Square an en-passant capture of the just-moved pawn ends on: one rank
/// behind the pawn's destination, toward the side that moved it.
pub open spec fn ep_dest_sq(v: BoardView, lm: Move) -> int {
    if colour_at(v, lm.1) == PieceColour::White {
        sq(lm.1) - 8
    } else {
        sq(lm.1) + 8
    }
}

/// An enemy pawn stands directly left of the just-moved pawn.
pub open spec fn ep_left_ok(v: BoardView, lm: Move) -> bool {
    &&& lm.1.x >= 1
    &&& v.kinds[sq(lm.1) - 1] == PieceType::Pawn
    &&& v.colours[sq(lm.1) - 1] != colour_at(v, lm.1)
}

/// An enemy pawn stands directly right of the just-moved pawn.
pub open spec fn ep_right_ok(v: BoardView, lm: Move) -> bool {
    &&& lm.1.x <= 6
    &&& v.kinds[sq(lm.1) + 1] == PieceType::Pawn
    &&& v.colours[sq(lm.1) + 1] != colour_at(v, lm.1)
}

/// `m` is an en-passant capture available to colour `c` after the preceding
/// move `lm`: a pawn of colour `c` beside the just-moved enemy pawn moves to
/// the square behind it.
pub open spec fn ep_move_for(v: BoardView, lm: Move, c: PieceColour, m: Move) -> bool {
    &&& ep_double_step(v, lm)
    &&& {
        ||| (ep_left_ok(v, lm) && v.colours[sq(lm.1) - 1] == c && m == (
            coord_at(sq(lm.1) - 1),
            coord_at(ep_dest_sq(v, lm)),
        ))
        ||| (ep_right_ok(v, lm) && v.colours[sq(lm.1) + 1] == c && m == (
            coord_at(sq(lm.1) + 1),
            coord_at(ep_dest_sq(v, lm)),
        ))
    }
}

impl crate::movegen::Pawn {
    /// Detect en-passant eligibility created by the move `translation`, which
    /// must be the move most recently applied to the board. Returns the
    /// squares of the left and right adjacent enemy pawns able to capture,
    /// and the square such a capture would end on; records eligibility in
    /// the state's en-passant flag.
    pub fn en_passant(state: &mut GameState, translation: Move) -> (r: (
        Option<usize>,
        Option<usize>,
        Option<usize>,
    ))
        requires
            board_wf(old(state).board@),
            coord_wf(translation.0),
            coord_wf(translation.1),
        ensures
            r.0 == if ep_double_step(old(state).board@, translation) && ep_left_ok(
                old(state).board@,
                translation,
            ) {
                Some((sq(translation.1) - 1) as usize)
            } else {
                None::<usize>
            },
            r.1 == if ep_double_step(old(state).board@, translation) && ep_right_ok(
                old(state).board@,
                translation,
            ) {
                Some((sq(translation.1) + 1) as usize)
            } else {
                None::<usize>
            },
            r.2 == if ep_double_step(old(state).board@, translation) {
                Some(ep_dest_sq(old(state).board@, translation) as usize)
            } else {
                None::<usize>
            },
            *final(state) == (GameState {
                en_passant_possible: ep_double_step(old(state).board@, translation) && (ep_left_ok(
                    old(state).board@,
                    translation,
                ) || ep_right_ok(old(state).board@, translation)),
                ..*old(state)
            }),
    {
        let destination_index = translation.1.to_index();
        let double_step = matches!(state.board.kinds[destination_index], PieceType::Pawn)
            && translation.0.x == translation.1.x && ((translation.0.y == 1 && translation.1.y
            == 3) || (translation.0.y == 6 && translation.1.y == 4));
        if !double_step {
            state.en_passant_possible = false;
            return (None, None, None);
        }
        let moving_colour = state.board.colours[destination_index];
        let mut left_is_opposite_colour_pawn: Option<usize> = None;
        let mut right_is_opposite_colour_pawn: Option<usize> = None;
        if translation.1.x >= 1 {
            let left_index = destination_index - 1;
            if matches!(state.board.kinds[left_index], PieceType::Pawn) && !(
            state.board.colours[left_index] == moving_colour) {
                left_is_opposite_colour_pawn = Some(left_index);
            }
        }
        if translation.1.x <= 6 {
            let right_index = destination_index + 1;
            if matches!(state.board.kinds[right_index], PieceType::Pawn) && !(
            state.board.colours[right_index] == moving_colour) {
                right_is_opposite_colour_pawn = Some(right_index);
            }
        }
        state.en_passant_possible = left_is_opposite_colour_pawn.is_some()
            || right_is_opposite_colour_pawn.is_some();
        let capturable_square = if matches!(moving_colour, PieceColour::White) {
            destination_index - 8
        } else {
            destination_index + 8
        };
        (left_is_opposite_colour_pawn, right_is_opposite_colour_pawn, Some(capturable_square))
    }

    /// Add the en-passant captures enabled by the preceding move `translation`
    /// on top of the given move lists, each into the capturing pawn's
    /// colour's list.
    pub fn append_en_passant_moves(
        state: &mut GameState,
        move_list: PlayerValidMoves,
        translation: Move,
    ) -> (r: PlayerValidMoves)
        requires
            board_wf(old(state).board@),
            coord_wf(translation.0),
            coord_wf(translation.1),
        ensures
            forall|m: Move| #[trigger]
                r.white@.contains(m) <==> (move_list.white@.contains(m) || ep_move_for(
                    old(state).board@,
                    translation,
                    PieceColour::White,
                    m,
                )),
            forall|m: Move| #[trigger]
                r.black@.contains(m) <==> (move_list.black@.contains(m) || ep_move_for(
                    old(state).board@,
                    translation,
                    PieceColour::Black,
                    m,
                )),
            *final(state) == (GameState {
                en_passant_possible: ep_double_step(old(state).board@, translation) && (ep_left_ok(
                    old(state).board@,
                    translation,
                ) || ep_right_ok(old(state).board@, translation)),
                ..*old(state)
            }),
    {
        let ghost v = old(state).board@;
        let mut output_move_list = PlayerValidMoves {
            black: move_list.black,
            white: move_list.white,
        };
        let (option_left_pawn_index, option_right_pawn_index, destination) =
            crate::movegen::Pawn::en_passant(state, translation);
        if let Some(left_pawn_index) = option_left_pawn_index {
            let destination_index = match destination {
                Some(d) => d,
                None => {
                    proof {
                        assert(false);
                    }
                    0
                },
            };
            let pawn_coord = Coordinates::from_index(left_pawn_index);
            let destination_coord = Coordinates::from_index(destination_index);
            match state.board.colours[left_pawn_index] {
                PieceColour::White => output_move_list.white.push((pawn_coord, destination_coord)),
                PieceColour::Black => output_move_list.black.push((pawn_coord, destination_coord)),
                PieceColour::Empty => {
                    proof {
                        assert(false);
                    }
                },
            }
        }
        if let Some(right_pawn_index) = option_right_pawn_index {
            let destination_index = match destination {
                Some(d) => d,
                None => {
                    proof {
                        assert(false);
                    }
                    0
                },
            };
            let pawn_coord = Coordinates::from_index(right_pawn_index);
            let destination_coord = Coordinates::from_index(destination_index);
            match state.board.colours[right_pawn_index] {
                PieceColour::White => output_move_list.white.push((pawn_coord, destination_coord)),
                PieceColour::Black => output_move_list.black.push((pawn_coord, destination_coord)),
                PieceColour::Empty => {
                    proof {
                        assert(false);
                    }
                },
            }
        }
        output_move_list
    }
}

/// Some legal move of the opponent of `c` ends on `c`'s kingside castling
/// path (king start, transit or end square).
pub open spec fn kingside_path_attacked(v: BoardView, c: PieceColour) -> bool {
    ||| legal_attacks(v, opposite_colour(c), Coordinates { x: 4, y: back_rank(c) as usize })
    ||| legal_attacks(v, opposite_colour(c), Coordinates { x: 5, y: back_rank(c) as usize })
    ||| legal_attacks(v, opposite_colour(c), Coordinates { x: 6, y: back_rank(c) as usize })
}

/// Some legal move of the opponent of `c` ends on `c`'s queenside castling
/// path.
pub open spec fn queenside_path_attacked(v: BoardView, c: PieceColour) -> bool {
    ||| legal_attacks(v, opposite_colour(c), Coordinates { x: 2, y: back_rank(c) as usize })
    ||| legal_attacks(v, opposite_colour(c), Coordinates { x: 3, y: back_rank(c) as usize })
    ||| legal_attacks(v, opposite_colour(c), Coordinates { x: 4, y: back_rank(c) as usize })
}

/// On a list holding exactly the legal moves of `c`'s opponent, the castling
/// transit tests coincide with the spec-level path-attack predicates.
proof fn lemma_path_attack_equiv(v: BoardView, list: Seq<Move>, c: PieceColour)
    requires
        forall|m: Move| #[trigger] list.contains(m) <==> legal_basic(v, m, opposite_colour(c)),
    ensures
        kingside_transit_hit(list, c) == kingside_path_attacked(v, c),
        queenside_transit_hit(list, c) == queenside_path_attacked(v, c),
{
    let opp = opposite_colour(c);
    let y = back_rank(c) as usize;
    if kingside_transit_hit(list, c) {
        let i = choose|i: int|
            0 <= i < list.len() && (list[i].1 == (Coordinates { x: 4, y }) || list[i].1
                == (Coordinates { x: 5, y }) || list[i].1 == (Coordinates { x: 6, y }));
        assert(list.contains(list[i]));
        assert(legal_basic(v, list[i], opp) && list[i].1 == list[i].1);
        assert(legal_attacks(v, opp, list[i].1));
    }
    if kingside_path_attacked(v, c) && !kingside_transit_hit(list, c) {
        if legal_attacks(v, opp, Coordinates { x: 4, y }) {
            let m = choose|m: Move| legal_basic(v, m, opp) && m.1 == (Coordinates { x: 4, y });
            assert(list.contains(m));
            let i = choose|i: int| 0 <= i < list.len() && list[i] == m;
            assert(false);
        } else if legal_attacks(v, opp, Coordinates { x: 5, y }) {
            let m = choose|m: Move| legal_basic(v, m, opp) && m.1 == (Coordinates { x: 5, y });
            assert(list.contains(m));
            let i = choose|i: int| 0 <= i < list.len() && list[i] == m;
            assert(false);
        } else {
            let m = choose|m: Move| legal_basic(v, m, opp) && m.1 == (Coordinates { x: 6, y });
            assert(list.contains(m));
            let i = choose|i: int| 0 <= i < list.len() && list[i] == m;
            assert(false);
        }
    }
    if queenside_transit_hit(list, c) {
        let i = choose|i: int|
            0 <= i < list.len() && (list[i].1 == (Coordinates { x: 2, y }) || list[i].1
                == (Coordinates { x: 3, y }) || list[i].1 == (Coordinates { x: 4, y }));
        assert(list.contains(list[i]));
        assert(legal_attacks(v, opp, list[i].1));
    }
    if queenside_path_attacked(v, c) && !queenside_transit_hit(list, c) {
        if legal_attacks(v, opp, Coordinates { x: 2, y }) {
            let m = choose|m: Move| legal_basic(v, m, opp) && m.1 == (Coordinates { x: 2, y });
            assert(list.contains(m));
            let i = choose|i: int| 0 <= i < list.len() && list[i] == m;
            assert(false);
        } else if legal_attacks(v, opp, Coordinates { x: 3, y }) {
            let m = choose|m: Move| legal_basic(v, m, opp) && m.1 == (Coordinates { x: 3, y });
            assert(list.contains(m));
            let i = choose|i: int| 0 <= i < list.len() && list[i] == m;
            assert(false);
        } else {
            let m = choose|m: Move| legal_basic(v, m, opp) && m.1 == (Coordinates { x: 4, y });
            assert(list.contains(m));
            let i = choose|i: int| 0 <= i < list.len() && list[i] == m;
            assert(false);
        }
    }
}

/// `m` belongs to the authoritative legal-move list of colour `c` in state
/// `gs`: a filtered pseudo-legal move, an eligible castle, or an en-passant
/// capture enabled by the preceding move.
pub open spec fn legal_member(gs: GameState, c: PieceColour, m: Move) -> bool {
    let v = gs.board@;
    let ks_rights = if c == PieceColour::White {
        gs.white_can_castle_kingside
    } else {
        gs.black_can_castle_kingside
    };
    let qs_rights = if c == PieceColour::White {
        gs.white_can_castle_queenside
    } else {
        gs.black_can_castle_queenside
    };
    ||| legal_basic(v, m, c)
    ||| (ks_rights && kingside_clear(v, c) && !kingside_path_attacked(v, c) && m
        == kingside_castle_move(c))
    ||| (qs_rights && queenside_clear(v, c) && !queenside_path_attacked(v, c) && m
        == queenside_castle_move(c))
    ||| (match gs.last_move {
        Some(lm) => ep_move_for(v, lm, c, m),
        None => false,
    })
}

/// The state's move lists are exactly the legal moves of its position: the
/// authoritative snapshot `get_legal_move_list` establishes and move
/// application relies on.
pub open spec fn move_list_correct(gs: GameState) -> bool {
    &&& forall|m: Move| #[trigger]
        gs.move_list.white@.contains(m) <==> legal_member(gs, PieceColour::White, m)
    &&& forall|m: Move| #[trigger]
        gs.move_list.black@.contains(m) <==> legal_member(gs, PieceColour::Black, m)
}

/// Legal-list membership depends only on the board, the castling rights and
/// the last move; states agreeing on those agree on it.
pub proof fn lemma_legal_member_congruence(a: GameState, b: GameState, c: PieceColour, m: Move)
    requires
        a.board@ == b.board@,
        a.white_can_castle_kingside == b.white_can_castle_kingside,
        a.black_can_castle_kingside == b.black_can_castle_kingside,
        a.white_can_castle_queenside == b.white_can_castle_queenside,
        a.black_can_castle_queenside == b.black_can_castle_queenside,
        a.last_move == b.last_move,
    ensures
        legal_member(a, c, m) == legal_member(b, c, m),
{
}

/// Any member of a legal-move list can be applied to the board: its
/// coordinates are on the board, it is recognisably a castle only in castle
/// shape, and — provided it does not capture a king — applying it keeps both
/// kings unique.
pub proof fn lemma_applicable(gs: GameState, c: PieceColour, m: Move)
    requires
        crate::state::gs_wf(gs),
        c == PieceColour::White || c == PieceColour::Black,
        legal_member(gs, c, m),
        gs.board@.kinds[sq(m.1)] != PieceType::King,
    ensures
        coord_wf(m.0),
        coord_wf(m.1),
        sq(m.0) != sq(m.1),
        is_castle_move(gs.board@, m) ==> crate::board::castle_shape(m),
        is_en_passant_capture(gs.board@, m) ==> crate::board::ep_capture_sq(m) != sq(m.1),
        unique_king(board_after(gs.board@, m), PieceColour::White),
        unique_king(board_after(gs.board@, m), PieceColour::Black),
{
    let v = gs.board@;
    if legal_basic(v, m, c) {
        crate::movegen::lemma_pseudo_dest_wf(v, m.0, m.1);
    } else if m == kingside_castle_move(c) || m == queenside_castle_move(c) {
        assert(coord_wf(m.0) && coord_wf(m.1) && sq(m.0) != sq(m.1));
        // the right implies the king still stands on its home square, so a
        // synthesised castle move starts on a king, never on a pawn
        assert(m.0.y == back_rank(c) as usize && m.0.x == 4);
        assert(if c == PieceColour::White {
            gs.white_can_castle_kingside || gs.white_can_castle_queenside
        } else {
            gs.black_can_castle_kingside || gs.black_can_castle_queenside
        });
        assert(king_home(v, c));
        assert(kind_at(v, m.0) == PieceType::King);
        assert(!is_en_passant_capture(v, m));
    } else {
        let lm = gs.last_move->Some_0;
        assert(ep_move_for(v, lm, c, m));
        assert(coord_wf(lm.0) && coord_wf(lm.1));
        assert(kind_at(v, lm.1) == PieceType::Pawn);
        if ep_left_ok(v, lm) && v.colours[sq(lm.1) - 1] == c && m == (
            coord_at(sq(lm.1) - 1),
            coord_at(ep_dest_sq(v, lm)),
        ) {
            assert(coord_wf(m.0) && coord_wf(m.1));
            assert(sq(m.0) == sq(lm.1) - 1);
            assert(sq(m.1) == ep_dest_sq(v, lm));
        } else {
            assert(sq(m.0) == sq(lm.1) + 1);
            assert(sq(m.1) == ep_dest_sq(v, lm));
        }
        assert(is_en_passant_capture(v, m) ==> crate::board::ep_capture_sq(m) == sq(lm.1));
    }
    crate::movegen::lemma_move_preserves_kings(v, m, PieceColour::White);
    crate::movegen::lemma_move_preserves_kings(v, m, PieceColour::Black);
}

/// Record in the two in-check flags whether each king currently stands
/// attacked, judged from the opponent's full pseudo-legal list.
fn compute_check_flags(state: &mut GameState, lists: &PlayerValidMoves)
    requires
        board_wf(old(state).board@),
        unique_king(old(state).board@, PieceColour::White),
        unique_king(old(state).board@, PieceColour::Black),
        forall|m: Move| #[trigger]
            lists.white@.contains(m) <==> pseudo_move(old(state).board@, m, PieceColour::White),
        forall|m: Move| #[trigger]
            lists.black@.contains(m) <==> pseudo_move(old(state).board@, m, PieceColour::Black),
    ensures
        *final(state) == (GameState {
            white_in_check: in_check(old(state).board@, PieceColour::White),
            black_in_check: in_check(old(state).board@, PieceColour::Black),
            ..*old(state)
        }),
{
    let ghost v = old(state).board@;
    if lists.black.len() > 0 {
        let black_copy = copy_moves(&lists.black);
        proof {
            assert(lists.black@.contains(lists.black@[0]));
            assert(pseudo_move(v, black_copy@[0], PieceColour::Black));
        }
        King::check_checker(state, black_copy);
        proof {
            let kc = coord_at(king_square(v, PieceColour::White));
            if state.white_in_check {
                let i = choose|i: int| 0 <= i < lists.black@.len() && lists.black@[i].1 == kc;
                assert(lists.black@.contains(lists.black@[i]));
                assert(attacks(v, PieceColour::Black, kc));
                assert(in_check(v, PieceColour::White));
            } else {
                if in_check(v, PieceColour::White) {
                    let am = choose|am: Move|
                        pseudo_move(v, am, PieceColour::Black) && am.1 == kc;
                    assert(lists.black@.contains(am));
                    let i = choose|i: int| 0 <= i < lists.black@.len() && lists.black@[i] == am;
                    assert(false);
                }
            }
        }
    } else {
        state.white_in_check = false;
        proof {
            if in_check(v, PieceColour::White) {
                let am = choose|am: Move|
                    pseudo_move(v, am, PieceColour::Black) && am.1 == coord_at(
                        king_square(v, PieceColour::White),
                    );
                assert(lists.black@.contains(am));
            }
        }
    }
    if lists.white.len() > 0 {
        let white_copy = copy_moves(&lists.white);
        proof {
            assert(lists.white@.contains(lists.white@[0]));
            assert(pseudo_move(v, white_copy@[0], PieceColour::White));
        }
        King::check_checker(state, white_copy);
        proof {
            let kc = coord_at(king_square(v, PieceColour::Black));
            if state.black_in_check {
                let i = choose|i: int| 0 <= i < lists.white@.len() && lists.white@[i].1 == kc;
                assert(lists.white@.contains(lists.white@[i]));
                assert(attacks(v, PieceColour::White, kc));
                assert(in_check(v, PieceColour::Black));
            } else {
                if in_check(v, PieceColour::Black) {
                    let am = choose|am: Move|
                        pseudo_move(v, am, PieceColour::White) && am.1 == kc;
                    assert(lists.white@.contains(am));
                    let i = choose|i: int| 0 <= i < lists.white@.len() && lists.white@[i] == am;
                    assert(false);
                }
            }
        }
    } else {
        state.black_in_check = false;
        proof {
            if in_check(v, PieceColour::Black) {
                let am = choose|am: Move|
                    pseudo_move(v, am, PieceColour::White) && am.1 == coord_at(
                        king_square(v, PieceColour::Black),
                    );
                assert(lists.white@.contains(am));
            }
        }
    }
}

/// Apply the legality filter to one colour's full pseudo-legal list; a side
/// with no pseudo-legal moves has no legal ones either, and its empty list
/// stays empty without entering the filter.
fn filter_self_check(list: MoveList, colour: PieceColour, state: &GameState) -> (r: MoveList)
    requires
        board_wf(state.board@),
        colour == PieceColour::White || colour == PieceColour::Black,
        unique_king(state.board@, colour),
        forall|m: Move| #[trigger] list@.contains(m) <==> pseudo_move(state.board@, m, colour),
    ensures
        forall|m: Move| #[trigger] r@.contains(m) <==> legal_basic(state.board@, m, colour),
{
    let ghost v = state.board@;
    if list.len() > 0 {
        proof {
            assert(list@.contains(list@[0]));
            assert(colour_at(v, list@[0].0) == colour);
            assert forall|i: int| 0 <= i < list@.len() implies pseudo_move(
                v,
                #[trigger] list@[i],
                colour_at(v, list@[0].0),
            ) by {
                assert(list@.contains(list@[i]));
            }
        }
        let r = remove_check_positions(list, state);
        r
    } else {
        proof {
            assert forall|m: Move| !legal_basic(v, m, colour) by {
                if pseudo_move(v, m, colour) {
                    assert(list@.contains(m));
                }
            }
        }
        list
    }
}


/// Regenerate the authoritative legal-move list for the current position:
/// generate both colours' pseudo-legal moves, record the in-check flags,
/// filter out self-check, then add eligible castles and en-passant captures.
#[verifier::rlimit(100)]
pub fn get_legal_move_list(state: &mut GameState)
    requires
        crate::state::gs_wf(*old(state)),
    ensures
        final(state).board == old(state).board,
        final(state).last_move == old(state).last_move,
        final(state).player_turn == old(state).player_turn,
        final(state).white_can_castle_queenside == old(state).white_can_castle_queenside,
        final(state).black_can_castle_queenside == old(state).black_can_castle_queenside,
        final(state).white_can_castle_kingside == old(state).white_can_castle_kingside,
        final(state).black_can_castle_kingside == old(state).black_can_castle_kingside,
        final(state).last_capture_or_pawn_move == old(state).last_capture_or_pawn_move,
        final(state).table_states_since_last_capture_or_pawn_move == old(
            state,
        ).table_states_since_last_capture_or_pawn_move,
        final(state).white_timer == old(state).white_timer,
        final(state).black_timer == old(state).black_timer,
        final(state).turn_counter == old(state).turn_counter,
        final(state).white_pieces == old(state).white_pieces,
        final(state).black_pieces == old(state).black_pieces,
        final(state).timer_increment == old(state).timer_increment,
        final(state).mode == old(state).mode,
        final(state).game_over == old(state).game_over,
        final(state).white_in_check == in_check(old(state).board@, PieceColour::White),
        final(state).black_in_check == in_check(old(state).board@, PieceColour::Black),
        final(state).en_passant_possible == (match old(state).last_move {
            Some(lm) => ep_double_step(old(state).board@, lm) && (ep_left_ok(
                old(state).board@,
                lm,
            ) || ep_right_ok(old(state).board@, lm)),
            None => old(state).en_passant_possible,
        }),
        move_list_correct(*final(state)),
        crate::state::gs_wf(*final(state)),
{
    let ghost v = old(state).board@;
    let move_list = get_valid_moves_for_piece(&state.board);
    compute_check_flags(state, &move_list);
    let white_legal = filter_self_check(move_list.white, PieceColour::White, state);
    let black_legal = filter_self_check(move_list.black, PieceColour::Black, state);

    // castling, computed over the filtered lists
    let filtered = PlayerValidMoves { white: white_legal, black: black_legal };
    let ghost fw = filtered.white@;
    let ghost fb = filtered.black@;
    let castled = King::append_castle_moves(filtered, state);
    proof {
        lemma_path_attack_equiv(v, fb, PieceColour::White);
        lemma_path_attack_equiv(v, fw, PieceColour::Black);
    }

    // en passant, synthesised from the immediately preceding move
    let output_move_list = if let Some(lm) = state.last_move {
        crate::movegen::Pawn::append_en_passant_moves(state, castled, lm)
    } else {
        castled
    };
    state.move_list = output_move_list;

    proof {
        let old_gs = *old(state);
        assert forall|m: Move| #[trigger]
            final(state).move_list.white@.contains(m) <==> legal_member(
                *final(state),
                PieceColour::White,
                m,
            ) by {
            lemma_legal_member_congruence(old_gs, *final(state), PieceColour::White, m);
        }
        assert forall|m: Move| #[trigger]
            final(state).move_list.black@.contains(m) <==> legal_member(
                *final(state),
                PieceColour::Black,
                m,
            ) by {
            lemma_legal_member_congruence(old_gs, *final(state), PieceColour::Black, m);
        }
    }
}

/// Home squares used to re-derive the castling rights: the king of `c` on
/// its starting square.
pub open spec fn king_home(v: BoardView, c: PieceColour) -> bool {
    v.kinds[back_rank(c) * 8 + 4] == PieceType::King && v.colours[back_rank(c) * 8 + 4] == c
}

/// The kingside rook of `c` on its starting corner.
pub open spec fn kingside_rook_home(v: BoardView, c: PieceColour) -> bool {
    v.kinds[back_rank(c) * 8 + 7] == PieceType::Rook && v.colours[back_rank(c) * 8 + 7] == c
}

/// The queenside rook of `c` on its starting corner.
pub open spec fn queenside_rook_home(v: BoardView, c: PieceColour) -> bool {
    v.kinds[back_rank(c) * 8] == PieceType::Rook && v.colours[back_rank(c) * 8] == c
}

impl King {
    /// A castle is applied as a king move of more than one file; this
    /// recognises one.
    pub fn is_move_a_castle(translation: Move, board: &Board) -> (r: bool)
        requires
            board_wf(board@),
            coord_wf(translation.0),
            coord_wf(translation.1),
        ensures
            r == is_castle_move(board@, translation),
    {
        let x_spread = if translation.1.x >= translation.0.x {
            translation.1.x - translation.0.x
        } else {
            translation.0.x - translation.1.x
        };
        matches!(board.kinds[translation.0.to_index()], PieceType::King) && x_spread > 1
    }

    /// Re-derive the four castling-rights flags from the current king and
    /// rook occupancy: once a king or rook has left its home square the
    /// corresponding right is lost for good.
    pub fn check_to_disable_castling(state: &mut GameState)
        requires
            board_wf(old(state).board@),
        ensures
            *final(state) == (GameState {
                white_can_castle_kingside: old(state).white_can_castle_kingside && king_home(
                    old(state).board@,
                    PieceColour::White,
                ) && kingside_rook_home(old(state).board@, PieceColour::White),
                black_can_castle_kingside: old(state).black_can_castle_kingside && king_home(
                    old(state).board@,
                    PieceColour::Black,
                ) && kingside_rook_home(old(state).board@, PieceColour::Black),
                white_can_castle_queenside: old(state).white_can_castle_queenside && king_home(
                    old(state).board@,
                    PieceColour::White,
                ) && queenside_rook_home(old(state).board@, PieceColour::White),
                black_can_castle_queenside: old(state).black_can_castle_queenside && king_home(
                    old(state).board@,
                    PieceColour::Black,
                ) && queenside_rook_home(old(state).board@, PieceColour::Black),
                ..*old(state)
            }),
    {
        let white_king_home = matches!(state.board.kinds[4], PieceType::King)
            && state.board.colours[4] == PieceColour::White;
        let black_king_home = matches!(state.board.kinds[60], PieceType::King)
            && state.board.colours[60] == PieceColour::Black;
        if !(white_king_home && matches!(state.board.kinds[7], PieceType::Rook)
            && state.board.colours[7] == PieceColour::White) {
            state.white_can_castle_kingside = false;
        }
        if !(black_king_home && matches!(state.board.kinds[63], PieceType::Rook)
            && state.board.colours[63] == PieceColour::Black) {
            state.black_can_castle_kingside = false;
        }
        if !(white_king_home && matches!(state.board.kinds[0], PieceType::Rook)
            && state.board.colours[0] == PieceColour::White) {
            state.white_can_castle_queenside = false;
        }
        if !(black_king_home && matches!(state.board.kinds[56], PieceType::Rook)
            && state.board.colours[56] == PieceColour::Black) {
            state.black_can_castle_queenside = false;
        }
    }
}

} // verus!
