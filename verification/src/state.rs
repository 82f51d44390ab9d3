//! Game state: the board, the authoritative legal-move snapshot, castling
//! rights, clocks, counters and history, together with construction, clock
//! bookkeeping and the termination evaluator's data.

use vstd::prelude::*;
use crate::board::{
    Board, BoardView, Coordinates, Move, PieceColour, PieceType, board_wf, generate_start_board,
    start_board,
};
use crate::movegen::{PlayerValidMoves, unique_king};

verus! {

/// Per-colour live piece counts (the king is implicit: exactly one while the
/// game is active). Mutated only on capture and promotion; read only by the
/// insufficient-material evaluation.
#[derive(Debug, Clone, Copy, PartialEq, Eq, Structural)]
pub struct PieceSet {
    pub pawn: u8,
    pub rook: u8,
    pub knight: u8,
    pub bishop: u8,
    pub queen: u8,
}

impl PieceSet {
    /// The piece counts of a full starting army.
    pub fn new() -> (r: PieceSet)
        ensures
            r == (PieceSet { pawn: 8, rook: 2, knight: 2, bishop: 2, queen: 1 }),
    {
        PieceSet { pawn: 8, rook: 2, knight: 2, bishop: 2, queen: 1 }
    }
}

/// Selected game mode; it decides the clock settings.
#[derive(Debug, Clone, Copy, PartialEq, Eq, Structural)]
pub enum GameMode {
    Default,
    Blitz,
    Rapid,
    Daily,
}

/// How a finished game ended. The colour payloads name the winner, except
/// for `Resignation`, whose payload names the side that resigned.
#[derive(Debug, Clone, Copy, PartialEq, Eq, Structural)]
pub enum GameEnd {
    Stalemate,
    InsufficientMaterials,
    FiftyMoveRuleDraw,
    RepetitionDraw,
    Checkmate(PieceColour),
    TimeOut(PieceColour),
    Resignation(PieceColour),
}

/// The central mutable entity of a game. Created once per game, mutated
/// exclusively by move application and the termination evaluator.
#[derive(Debug, Clone)]
pub struct GameState {
    /// The current board.
    pub board: Board,
    /// The authoritative legal-move snapshot for the current position,
    /// regenerated in full each turn.
    pub move_list: PlayerValidMoves,
    /// The move applied most recently; en-passant detection reads it.
    pub last_move: Option<Move>,
    /// `1` while white is to move, `2` while black is.
    pub player_turn: u8,
    pub white_can_castle_queenside: bool,
    pub black_can_castle_queenside: bool,
    pub white_can_castle_kingside: bool,
    pub black_can_castle_kingside: bool,
    /// Half-moves since the last capture or pawn move (fifty-move rule).
    pub last_capture_or_pawn_move: u8,
    /// Board snapshots since the last capture or pawn move, oldest first;
    /// reset, not appended to indefinitely, on every irreversible move.
    /// Repetition detection compares against these.
    pub table_states_since_last_capture_or_pawn_move: Vec<Board>,
    /// Whether the immediately preceding move enabled an en-passant capture.
    pub en_passant_possible: bool,
    /// White's remaining clock, in milliseconds.
    pub white_timer: u64,
    /// Black's remaining clock, in milliseconds.
    pub black_timer: u64,
    pub turn_counter: u16,
    pub white_in_check: bool,
    pub black_in_check: bool,
    pub white_pieces: PieceSet,
    pub black_pieces: PieceSet,
    /// Clock increment credited each turn, in milliseconds.
    pub timer_increment: u64,
    pub mode: GameMode,
    pub game_over: bool,
}

/// Well-formed game state: the board is well formed, each side has exactly
/// one king, the player to move is white or black, and the repetition
/// history holds at least one well-formed snapshot.
pub open spec fn gs_wf(gs: GameState) -> bool {
    &&& board_wf(gs.board@)
    &&& unique_king(gs.board@, PieceColour::White)
    &&& unique_king(gs.board@, PieceColour::Black)
    &&& (gs.player_turn == 1 || gs.player_turn == 2)
    &&& (match gs.last_move {
        Some(lm) => crate::board::coord_wf(lm.0) && crate::board::coord_wf(lm.1),
        None => true,
    })
    &&& gs.table_states_since_last_capture_or_pawn_move@.len() >= 1
    &&& forall|i: int|
        0 <= i < gs.table_states_since_last_capture_or_pawn_move@.len() ==> board_wf(
            #[trigger] gs.table_states_since_last_capture_or_pawn_move@[i]@,
        )
    &&& (gs.white_can_castle_kingside ==> crate::legality::king_home(gs.board@, PieceColour::White)
        && crate::legality::kingside_rook_home(gs.board@, PieceColour::White))
    &&& (gs.black_can_castle_kingside ==> crate::legality::king_home(gs.board@, PieceColour::Black)
        && crate::legality::kingside_rook_home(gs.board@, PieceColour::Black))
    &&& (gs.white_can_castle_queenside ==> crate::legality::king_home(
        gs.board@,
        PieceColour::White,
    ) && crate::legality::queenside_rook_home(gs.board@, PieceColour::White))
    &&& (gs.black_can_castle_queenside ==> crate::legality::king_home(
        gs.board@,
        PieceColour::Black,
    ) && crate::legality::queenside_rook_home(gs.board@, PieceColour::Black))
}

/// The colour whose turn `player_turn` encodes.
pub open spec fn turn_colour(player_turn: u8) -> PieceColour {
    if player_turn == 1 {
        PieceColour::White
    } else {
        PieceColour::Black
    }
}

/// The starting position has exactly one king of each colour.
pub proof fn lemma_start_board_kings()
    ensures
        unique_king(start_board(), PieceColour::White),
        unique_king(start_board(), PieceColour::Black),
        board_wf(start_board()),
{
    let v = start_board();
    assert(v.kinds[4] == crate::board::PieceType::King);
    assert(v.colours[4] == PieceColour::White);
    assert(crate::movegen::is_king_of(v, PieceColour::White, 4));
    assert(v.kinds[60] == crate::board::PieceType::King);
    assert(v.colours[60] == PieceColour::Black);
    assert(crate::movegen::is_king_of(v, PieceColour::Black, 60));
    assert forall|i: int, j: int|
        crate::movegen::is_king_of(v, PieceColour::White, i) && crate::movegen::is_king_of(
            v,
            PieceColour::White,
            j,
        ) implies i == j by {
        assert(i == 4 && j == 4);
    }
    assert forall|i: int, j: int|
        crate::movegen::is_king_of(v, PieceColour::Black, i) && crate::movegen::is_king_of(
            v,
            PieceColour::Black,
            j,
        ) implies i == j by {
        assert(i == 60 && j == 60);
    }
    assert forall|i: int| 0 <= i < 64 implies ((v.kinds[i] == crate::board::PieceType::Empty)
        <==> (v.colours[i] == PieceColour::Empty)) by {}
}

impl GameState {
    /// A fresh game: the starting position, full castling rights, empty move
    /// lists, default clocks, and the starting position as the only history
    /// snapshot. The legal-move list is generated separately.
    pub fn new() -> (r: GameState)
        ensures
            r.board@ == start_board(),
            r.move_list.white@.len() == 0,
            r.move_list.black@.len() == 0,
            r.last_move == None::<Move>,
            r.player_turn == 1,
            r.white_can_castle_queenside && r.black_can_castle_queenside
                && r.white_can_castle_kingside && r.black_can_castle_kingside,
            r.last_capture_or_pawn_move == 0,
            r.table_states_since_last_capture_or_pawn_move@.len() == 1,
            r.table_states_since_last_capture_or_pawn_move@[0]@ == start_board(),
            !r.en_passant_possible,
            r.white_timer == 1800000 && r.black_timer == 1800000,
            r.turn_counter == 0,
            !r.white_in_check && !r.black_in_check,
            r.white_pieces == (PieceSet { pawn: 8, rook: 2, knight: 2, bishop: 2, queen: 1 }),
            r.black_pieces == (PieceSet { pawn: 8, rook: 2, knight: 2, bishop: 2, queen: 1 }),
            r.timer_increment == 30000,
            r.mode == GameMode::Default,
            !r.game_over,
            gs_wf(r),
    {
        let board = generate_start_board();
        let first_snapshot = generate_start_board();
        let mut table_states: Vec<Board> = Vec::new();
        table_states.push(first_snapshot);
        let r = GameState {
            board,
            move_list: PlayerValidMoves { white: Vec::new(), black: Vec::new() },
            last_move: None,
            player_turn: 1,
            white_can_castle_queenside: true,
            black_can_castle_queenside: true,
            white_can_castle_kingside: true,
            black_can_castle_kingside: true,
            last_capture_or_pawn_move: 0,
            table_states_since_last_capture_or_pawn_move: table_states,
            en_passant_possible: false,
            white_timer: 1800000,
            black_timer: 1800000,
            turn_counter: 0,
            white_in_check: false,
            black_in_check: false,
            white_pieces: PieceSet::new(),
            black_pieces: PieceSet::new(),
            timer_increment: 30000,
            mode: GameMode::Default,
            game_over: false,
        };
        proof {
            lemma_start_board_kings();
        }
        r
    }

    /// Switch to blitz clocks: five minutes a side, one second of increment.
    pub fn blitz_mode(&mut self)
        ensures
            *final(self) == (GameState {
                white_timer: 300000,
                black_timer: 300000,
                timer_increment: 1000,
                mode: GameMode::Blitz,
                ..*old(self)
            }),
    {
        self.white_timer = 300000;
        self.black_timer = 300000;
        self.timer_increment = 1000;
        self.mode = GameMode::Blitz;
    }

    /// Charge the elapsed thinking time, measured by the caller, against the
    /// clock of the player to move; the clock never goes below zero.
    pub fn update_chess_clock(&mut self, elapsed: u64)
        requires
            old(self).player_turn == 1 || old(self).player_turn == 2,
        ensures
            old(self).player_turn == 1 ==> *final(self) == (GameState {
                white_timer: if elapsed <= old(self).white_timer {
                    (old(self).white_timer - elapsed) as u64
                } else {
                    0
                },
                ..*old(self)
            }),
            old(self).player_turn == 2 ==> *final(self) == (GameState {
                black_timer: if elapsed <= old(self).black_timer {
                    (old(self).black_timer - elapsed) as u64
                } else {
                    0
                },
                ..*old(self)
            }),
    {
        if self.player_turn == 1 {
            self.white_timer = if elapsed <= self.white_timer {
                self.white_timer - elapsed
            } else {
                0
            };
        } else {
            self.black_timer = if elapsed <= self.black_timer {
                self.black_timer - elapsed
            } else {
                0
            };
        }
    }

    /// Start the game afresh, preserving only the selected mode (and its
    /// clock settings), and regenerate the legal-move list of the starting
    /// position. As at the start of a session, the first player's clock is
    /// credited one increment.
    pub fn reset(&mut self)
        ensures
            final(self).board@ == start_board(),
            final(self).last_move == None::<Move>,
            final(self).player_turn == 1,
            final(self).white_can_castle_queenside && final(self).black_can_castle_queenside
                && final(self).white_can_castle_kingside && final(self).black_can_castle_kingside,
            final(self).last_capture_or_pawn_move == 0,
            final(self).table_states_since_last_capture_or_pawn_move@.len() == 1,
            final(self).table_states_since_last_capture_or_pawn_move@[0]@ == start_board(),
            final(self).turn_counter == 0,
            final(self).white_pieces == (PieceSet { pawn: 8, rook: 2, knight: 2, bishop: 2, queen: 1 }),
            final(self).black_pieces == (PieceSet { pawn: 8, rook: 2, knight: 2, bishop: 2, queen: 1 }),
            !final(self).game_over,
            final(self).mode == (if old(self).mode == GameMode::Blitz {
                GameMode::Blitz
            } else {
                GameMode::Default
            }),
            final(self).timer_increment == (if old(self).mode == GameMode::Blitz {
                1000u64
            } else {
                30000u64
            }),
            final(self).white_timer == (if old(self).mode == GameMode::Blitz {
                301000u64
            } else {
                1830000u64
            }),
            final(self).black_timer == (if old(self).mode == GameMode::Blitz {
                300000u64
            } else {
                1800000u64
            }),
            final(self).white_in_check == crate::movegen::in_check(
                start_board(),
                PieceColour::White,
            ),
            final(self).black_in_check == crate::movegen::in_check(
                start_board(),
                PieceColour::Black,
            ),
            !final(self).en_passant_possible,
            crate::legality::move_list_correct(*final(self)),
            gs_wf(*final(self)),
    {
        let mode = self.mode;
        *self = GameState::new();
        if matches!(mode, GameMode::Blitz) {
            self.blitz_mode();
        }
        self.white_timer = self.white_timer + self.timer_increment;
        crate::legality::get_legal_move_list(self);
    }

    /// Hand the turn to the other player.
    pub fn take_turn(&mut self)
        requires
            old(self).player_turn == 1 || old(self).player_turn == 2,
        ensures
            *final(self) == (GameState {
                player_turn: if old(self).player_turn == 1 {
                    2u8
                } else {
                    1u8
                },
                ..*old(self)
            }),
    {
        if self.player_turn == 1 {
            self.player_turn += 1;
        } else {
            self.player_turn -= 1;
        }
    }
}

/// Linear index `i` names a light square (file plus rank is odd).
pub open spec fn square_light(i: int) -> bool {
    (i % 8 + i / 8) % 2 == 1
}

/// Colour `c` owns two bishops standing on squares of different colours, so
/// its bishops can cover both mating-square colours.
pub open spec fn bishops_span_colours(v: BoardView, c: PieceColour) -> bool {
    exists|i: int, j: int|
        0 <= i < 64 && 0 <= j < 64 && #[trigger] bishop_of_at(v, c, i) && #[trigger] bishop_of_at(
            v,
            c,
            j,
        ) && square_light(i) != square_light(j)
}

/// Square `i` holds a bishop of colour `c`.
pub open spec fn bishop_of_at(v: BoardView, c: PieceColour, i: int) -> bool {
    v.kinds[i] == crate::board::PieceType::Bishop && v.colours[i] == c
}

/// Whether the bishops of `colour` alone could ever deliver mate: true
/// exactly when that colour has bishops on both square colours.
pub fn bishop_can_checkmate(state: &GameState, colour: PieceColour) -> (r: bool)
    requires
        board_wf(state.board@),
    ensures
        r == bishops_span_colours(state.board@, colour),
{
    let ghost v = state.board@;
    let mut found_light = false;
    let mut found_dark = false;
    let ghost mut light_wit: int = 0;
    let ghost mut dark_wit: int = 0;
    let mut i: usize = 0;
    while i < 64
        invariant
            i <= 64,
            board_wf(v),
            v == state.board@,
            found_light ==> 0 <= light_wit < i && bishop_of_at(v, colour, light_wit)
                && square_light(light_wit),
            found_dark ==> 0 <= dark_wit < i && bishop_of_at(v, colour, dark_wit) && !square_light(
                dark_wit,
            ),
            !found_light ==> forall|j: int|
                0 <= j < i && #[trigger] bishop_of_at(v, colour, j) ==> !square_light(j),
            !found_dark ==> forall|j: int|
                0 <= j < i && #[trigger] bishop_of_at(v, colour, j) ==> square_light(j),
        decreases 64 - i,
    {
        if matches!(state.board.kinds[i], crate::board::PieceType::Bishop)
            && state.board.colours[i] == colour {
            if (i % 8 + i / 8) % 2 == 1 {
                found_light = true;
                proof {
                    light_wit = i as int;
                }
            } else {
                found_dark = true;
                proof {
                    dark_wit = i as int;
                }
            }
        }
        i += 1;
    }
    proof {
        if found_light && found_dark {
            assert(bishops_span_colours(v, colour));
        } else {
            if bishops_span_colours(v, colour) {
                let (a, b) = choose|a: int, b: int|
                    0 <= a < 64 && 0 <= b < 64 && #[trigger] bishop_of_at(v, colour, a)
                        && #[trigger] bishop_of_at(v, colour, b) && square_light(a)
                        != square_light(b);
                assert(false);
            }
        }
    }
    found_light && found_dark
}

/// The insufficient-material rule for one side: sufficient while any pawn,
/// rook or queen remains; otherwise insufficient with no bishops and fewer
/// than three knights, or with no knights and either a single bishop or all
/// bishops on one square colour.
pub open spec fn side_insufficient(gs: GameState, c: PieceColour) -> bool {
    let ps = if c == PieceColour::White {
        gs.white_pieces
    } else {
        gs.black_pieces
    };
    if ps.pawn > 0 || ps.rook > 0 || ps.queen > 0 {
        false
    } else if ps.bishop == 0 && ps.knight < 3 {
        true
    } else if ps.knight == 0 && (ps.bishop < 2 || !bishops_span_colours(gs.board@, c)) {
        true
    } else {
        false
    }
}

impl GameEnd {
    /// Evaluate the insufficient-material rule for white and black.
    pub fn insufficient_materials(state: &GameState) -> (r: (bool, bool))
        requires
            board_wf(state.board@),
        ensures
            r.0 == side_insufficient(*state, PieceColour::White),
            r.1 == side_insufficient(*state, PieceColour::Black),
    {
        let mut white_insufficient = false;
        let mut black_insufficient = false;

        if state.white_pieces.pawn > 0 || state.white_pieces.rook > 0 || state.white_pieces.queen
            > 0 {
        } else if state.white_pieces.bishop == 0 && state.white_pieces.knight < 3 {
            white_insufficient = true;
        } else if state.white_pieces.knight == 0 && (state.white_pieces.bishop < 2
            || !bishop_can_checkmate(state, PieceColour::White)) {
            white_insufficient = true;
        }

        if state.black_pieces.pawn > 0 || state.black_pieces.rook > 0 || state.black_pieces.queen
            > 0 {
        } else if state.black_pieces.bishop == 0 && state.black_pieces.knight < 3 {
            black_insufficient = true;
        } else if state.black_pieces.knight == 0 && (state.black_pieces.bishop < 2
            || !bishop_can_checkmate(state, PieceColour::Black)) {
            black_insufficient = true;
        }

        (white_insufficient, black_insufficient)
    }
}

/// The last snapshot of the history equals at least two earlier ones:
/// the position has occurred three times since the last irreversible move.
pub open spec fn repetition_draw(h: Seq<Board>) -> bool {
    exists|i: int, j: int|
        0 <= i < j < h.len() - 1 && #[trigger] h[i]@ == h[h.len() - 1]@ && #[trigger] h[j]@ == h[
            h.len() - 1]@
}

/// Threefold-repetition test over the history kept since the last capture
/// or pawn move.
pub fn game_end_by_repetition(state: &GameState) -> (r: bool)
    requires
        state.table_states_since_last_capture_or_pawn_move@.len() >= 1,
        forall|i: int|
            0 <= i < state.table_states_since_last_capture_or_pawn_move@.len() ==> board_wf(
                #[trigger] state.table_states_since_last_capture_or_pawn_move@[i]@,
            ),
    ensures
        r == repetition_draw(state.table_states_since_last_capture_or_pawn_move@),
{
    let board_list = &state.table_states_since_last_capture_or_pawn_move;
    let ghost h = board_list@;
    let last_index = board_list.len() - 1;
    let mut first_match: Option<usize> = None;
    let mut second_match: Option<usize> = None;
    let mut i: usize = 0;
    while i < last_index
        invariant
            i <= last_index,
            last_index == h.len() - 1,
            h == state.table_states_since_last_capture_or_pawn_move@,
            board_list@ == h,
            h.len() >= 1,
            forall|k: int| 0 <= k < h.len() ==> board_wf(#[trigger] h[k]@),
            match first_match {
                Some(a) => a < i && h[a as int]@ == h[h.len() - 1]@,
                None => forall|k: int| 0 <= k < i ==> (#[trigger] h[k])@ != h[h.len() - 1]@,
            },
            match second_match {
                Some(b) => match first_match {
                    Some(a) => a < b < i && h[b as int]@ == h[h.len() - 1]@,
                    None => false,
                },
                None => match first_match {
                    Some(a) => forall|k: int|
                        0 <= k < i && (#[trigger] h[k])@ == h[h.len() - 1]@ ==> k == a as int,
                    None => true,
                },
            },
        decreases last_index - i,
    {
        let last_board = &board_list[last_index];
        if crate::board::boards_equal(&board_list[i], last_board) {
            if first_match.is_none() {
                first_match = Some(i);
            } else if second_match.is_none() {
                second_match = Some(i);
            }
        }
        i += 1;
    }
    proof {
        match second_match {
            Some(b) => {
                match first_match {
                    Some(a) => {
                        assert(h[a as int]@ == h[h.len() - 1]@);
                        assert(h[b as int]@ == h[h.len() - 1]@);
                        assert(repetition_draw(h));
                    },
                    None => {
                        assert(false);
                    },
                }
            },
            None => {
                if repetition_draw(h) {
                    let (x, y) = choose|x: int, y: int|
                        0 <= x < y < h.len() - 1 && #[trigger] h[x]@ == h[h.len() - 1]@
                            && #[trigger] h[y]@ == h[h.len() - 1]@;
                    assert(false);
                }
            },
        }
    }
    second_match.is_some()
}

/// The termination verdict for a state, evaluated in fixed priority:
/// checkmate or stalemate from an empty legal list, then the fifty-move
/// rule, threefold repetition, mutual insufficient material, and finally
/// the clocks, a flag fall cross-checked against the opponent's material.
pub open spec fn game_end_spec(gs: GameState) -> Option<GameEnd> {
    if gs.move_list.white@.len() == 0 && gs.white_in_check {
        Some(GameEnd::Checkmate(PieceColour::Black))
    } else if gs.move_list.white@.len() == 0 {
        Some(GameEnd::Stalemate)
    } else if gs.move_list.black@.len() == 0 && gs.black_in_check {
        Some(GameEnd::Checkmate(PieceColour::White))
    } else if gs.move_list.black@.len() == 0 {
        Some(GameEnd::Stalemate)
    } else if gs.last_capture_or_pawn_move >= 100 {
        Some(GameEnd::FiftyMoveRuleDraw)
    } else if repetition_draw(gs.table_states_since_last_capture_or_pawn_move@) {
        Some(GameEnd::RepetitionDraw)
    } else if side_insufficient(gs, PieceColour::White) && side_insufficient(
        gs,
        PieceColour::Black,
    ) {
        Some(GameEnd::InsufficientMaterials)
    } else if gs.white_timer == 0 && !side_insufficient(gs, PieceColour::White)
        && side_insufficient(gs, PieceColour::Black) {
        Some(GameEnd::InsufficientMaterials)
    } else if gs.black_timer == 0 && side_insufficient(gs, PieceColour::White)
        && !side_insufficient(gs, PieceColour::Black) {
        Some(GameEnd::InsufficientMaterials)
    } else if gs.white_timer == 0 {
        Some(GameEnd::TimeOut(PieceColour::Black))
    } else if gs.black_timer == 0 {
        Some(GameEnd::TimeOut(PieceColour::White))
    } else {
        None
    }
}

/// Inspect the state after a move and report how the game ended, if it did.
pub fn game_end(state: &GameState) -> (r: Option<GameEnd>)
    requires
        board_wf(state.board@),
        state.table_states_since_last_capture_or_pawn_move@.len() >= 1,
        forall|i: int|
            0 <= i < state.table_states_since_last_capture_or_pawn_move@.len() ==> board_wf(
                #[trigger] state.table_states_since_last_capture_or_pawn_move@[i]@,
            ),
    ensures
        r == game_end_spec(*state),
{
    if state.move_list.white.len() == 0 && state.white_in_check {
        Some(GameEnd::Checkmate(PieceColour::Black))
    } else if state.move_list.white.len() == 0 {
        Some(GameEnd::Stalemate)
    } else if state.move_list.black.len() == 0 && state.black_in_check {
        Some(GameEnd::Checkmate(PieceColour::White))
    } else if state.move_list.black.len() == 0 {
        Some(GameEnd::Stalemate)
    } else if state.last_capture_or_pawn_move >= 100 {
        Some(GameEnd::FiftyMoveRuleDraw)
    } else if game_end_by_repetition(state) {
        Some(GameEnd::RepetitionDraw)
    } else {
        let insufficient = GameEnd::insufficient_materials(state);
        if insufficient.0 && insufficient.1 {
            Some(GameEnd::InsufficientMaterials)
        } else if state.white_timer == 0 && !insufficient.0 && insufficient.1 {
            Some(GameEnd::InsufficientMaterials)
        } else if state.black_timer == 0 && insufficient.0 && !insufficient.1 {
            Some(GameEnd::InsufficientMaterials)
        } else if state.white_timer == 0 {
            Some(GameEnd::TimeOut(PieceColour::Black))
        } else if state.black_timer == 0 {
            Some(GameEnd::TimeOut(PieceColour::White))
        } else {
            None
        }
    }
}

/// A caller-contract violation reported by move application, so the caller
/// can retry with corrected input.
#[derive(Debug, Clone, Copy, PartialEq, Eq, Structural)]
pub enum MoveError {
    /// The requested move is not in the current player's legal-move list.
    NotInMoveList,
    /// The move promotes a pawn but the supplied choice is not one of rook,
    /// knight, bishop or queen.
    InvalidPromotion,
}

/// The promotion choices a pawn may resolve to.
pub open spec fn valid_promotion(choice: PieceType) -> bool {
    choice == PieceType::Rook || choice == PieceType::Knight || choice == PieceType::Bishop
        || choice == PieceType::Queen
}

/// The piece set with the count of `choice` incremented.
pub open spec fn promoted_set(ps: PieceSet, choice: PieceType) -> PieceSet {
    match choice {
        PieceType::Rook => PieceSet { rook: (ps.rook + 1) as u8, ..ps },
        PieceType::Knight => PieceSet { knight: (ps.knight + 1) as u8, ..ps },
        PieceType::Bishop => PieceSet { bishop: (ps.bishop + 1) as u8, ..ps },
        PieceType::Queen => PieceSet { queen: (ps.queen + 1) as u8, ..ps },
        _ => ps,
    }
}

/// The count of `choice` has room to grow.
pub open spec fn promo_headroom(ps: PieceSet, choice: PieceType) -> bool {
    match choice {
        PieceType::Rook => ps.rook < 255,
        PieceType::Knight => ps.knight < 255,
        PieceType::Bishop => ps.bishop < 255,
        PieceType::Queen => ps.queen < 255,
        _ => true,
    }
}

/// How many pieces of kind `k` the set counts (kings are implicit and
/// empties meaningless; both count as one so they never constrain).
pub open spec fn count_of(ps: PieceSet, k: PieceType) -> int {
    match k {
        PieceType::Pawn => ps.pawn as int,
        PieceType::Rook => ps.rook as int,
        PieceType::Knight => ps.knight as int,
        PieceType::Bishop => ps.bishop as int,
        PieceType::Queen => ps.queen as int,
        _ => 1,
    }
}

/// The piece set with the count of `k` decremented.
pub open spec fn captured_set(ps: PieceSet, k: PieceType) -> PieceSet {
    match k {
        PieceType::Pawn => PieceSet { pawn: (ps.pawn - 1) as u8, ..ps },
        PieceType::Rook => PieceSet { rook: (ps.rook - 1) as u8, ..ps },
        PieceType::Knight => PieceSet { knight: (ps.knight - 1) as u8, ..ps },
        PieceType::Bishop => PieceSet { bishop: (ps.bishop - 1) as u8, ..ps },
        PieceType::Queen => PieceSet { queen: (ps.queen - 1) as u8, ..ps },
        _ => ps,
    }
}

/// All fields but the board and the two piece sets agree.
pub open spec fn eq_except_board_and_pieces(a: GameState, b: GameState) -> bool {
    &&& a.move_list == b.move_list
    &&& a.last_move == b.last_move
    &&& a.player_turn == b.player_turn
    &&& a.white_can_castle_queenside == b.white_can_castle_queenside
    &&& a.black_can_castle_queenside == b.black_can_castle_queenside
    &&& a.white_can_castle_kingside == b.white_can_castle_kingside
    &&& a.black_can_castle_kingside == b.black_can_castle_kingside
    &&& a.last_capture_or_pawn_move == b.last_capture_or_pawn_move
    &&& a.table_states_since_last_capture_or_pawn_move
        == b.table_states_since_last_capture_or_pawn_move
    &&& a.en_passant_possible == b.en_passant_possible
    &&& a.white_timer == b.white_timer
    &&& a.black_timer == b.black_timer
    &&& a.turn_counter == b.turn_counter
    &&& a.white_in_check == b.white_in_check
    &&& a.black_in_check == b.black_in_check
    &&& a.timer_increment == b.timer_increment
    &&& a.mode == b.mode
    &&& a.game_over == b.game_over
}

impl crate::movegen::Pawn {
    /// Resolve a promotion: overwrite the promoted pawn's square with the
    /// externally supplied choice and credit the mover's piece count. Runs
    /// strictly after the move has otherwise been applied to the board.
    pub fn pawn_promotion(destination: Coordinates, state: &mut GameState, choice: PieceType)
        requires
            board_wf(old(state).board@),
            crate::board::coord_wf(destination),
            old(state).player_turn == 1 || old(state).player_turn == 2,
            valid_promotion(choice),
            old(state).player_turn == 1 ==> promo_headroom(old(state).white_pieces, choice),
            old(state).player_turn == 2 ==> promo_headroom(old(state).black_pieces, choice),
            crate::board::colour_at(old(state).board@, destination) != PieceColour::Empty,
        ensures
            final(state).board@.kinds == old(state).board@.kinds.update(
                crate::board::sq(destination),
                choice,
            ),
            final(state).board@.colours == old(state).board@.colours,
            board_wf(final(state).board@),
            old(state).player_turn == 1 ==> final(state).white_pieces == promoted_set(
                old(state).white_pieces,
                choice,
            ) && final(state).black_pieces == old(state).black_pieces,
            old(state).player_turn == 2 ==> final(state).black_pieces == promoted_set(
                old(state).black_pieces,
                choice,
            ) && final(state).white_pieces == old(state).white_pieces,
            eq_except_board_and_pieces(*old(state), *final(state)),
    {
        if state.player_turn == 1 {
            match choice {
                PieceType::Knight => state.white_pieces.knight = state.white_pieces.knight + 1,
                PieceType::Rook => state.white_pieces.rook = state.white_pieces.rook + 1,
                PieceType::Bishop => state.white_pieces.bishop = state.white_pieces.bishop + 1,
                PieceType::Queen => state.white_pieces.queen = state.white_pieces.queen + 1,
                _ => {
                    proof {
                        assert(false);
                    }
                },
            }
        } else {
            match choice {
                PieceType::Knight => state.black_pieces.knight = state.black_pieces.knight + 1,
                PieceType::Rook => state.black_pieces.rook = state.black_pieces.rook + 1,
                PieceType::Bishop => state.black_pieces.bishop = state.black_pieces.bishop + 1,
                PieceType::Queen => state.black_pieces.queen = state.black_pieces.queen + 1,
                _ => {
                    proof {
                        assert(false);
                    }
                },
            }
        }
        let destination_index = destination.to_index();
        state.board.kinds.set(destination_index, choice);
        proof {
            assert(final(state).board@.kinds =~= old(state).board@.kinds.update(
                crate::board::sq(destination),
                choice,
            ));
        }
    }
}

/// Whether the move belongs to the current player's legal-move list.
pub open spec fn in_turn_list(gs: GameState, m: Move) -> bool {
    if gs.player_turn == 1 {
        gs.move_list.white@.contains(m)
    } else {
        gs.move_list.black@.contains(m)
    }
}

/// The move completes a pawn's advance to the farthest rank, so it promotes.
pub open spec fn is_promotion_move(v: BoardView, m: Move) -> bool {
    crate::board::kind_at(v, m.0) == PieceType::Pawn && (m.1.y == 0 || m.1.y == 7)
}

/// The move is a pawn move or a capture, so it resets the fifty-move count
/// and the repetition history.
pub open spec fn irreversible_move(v: BoardView, m: Move) -> bool {
    crate::board::kind_at(v, m.0) == PieceType::Pawn || crate::board::colour_at(v, m.1)
        != PieceColour::Empty
}

/// The captured side's piece counts can absorb the capture the move makes.
pub open spec fn turn_counts_ok(gs: GameState, m: Move) -> bool {
    let v = gs.board@;
    &&& (crate::board::colour_at(v, m.1) == PieceColour::White ==> count_of(
        gs.white_pieces,
        crate::board::kind_at(v, m.1),
    ) > 0)
    &&& (crate::board::colour_at(v, m.1) == PieceColour::Black ==> count_of(
        gs.black_pieces,
        crate::board::kind_at(v, m.1),
    ) > 0)
    &&& (crate::board::is_en_passant_capture(v, m) ==> {
        &&& (v.colours[crate::board::ep_capture_sq(m)] == PieceColour::White
            ==> gs.white_pieces.pawn > 0)
        &&& (v.colours[crate::board::ep_capture_sq(m)] == PieceColour::Black
            ==> gs.black_pieces.pawn > 0)
    })
}

/// The board after the whole turn: the move applied, and a promotion's
/// chosen piece written onto the destination.
pub open spec fn board_after_turn(v: BoardView, m: Move, choice: PieceType) -> BoardView {
    let b = crate::board::board_after(v, m);
    if is_promotion_move(v, m) {
        BoardView { kinds: b.kinds.update(crate::board::sq(m.1), choice), colours: b.colours }
    } else {
        b
    }
}

/// White's piece counts after the captures the move makes: a capture of a
/// white piece on the destination, or of a white pawn en passant, decrements.
pub open spec fn white_set_captured(gs: GameState, m: Move) -> PieceSet {
    let v = gs.board@;
    let s1 = if crate::board::colour_at(v, m.1) == PieceColour::White {
        captured_set(gs.white_pieces, crate::board::kind_at(v, m.1))
    } else {
        gs.white_pieces
    };
    if crate::board::is_en_passant_capture(v, m) && v.colours[crate::board::ep_capture_sq(m)]
        == PieceColour::White {
        PieceSet { pawn: (s1.pawn - 1) as u8, ..s1 }
    } else {
        s1
    }
}

/// Black's piece counts after the captures the move makes.
pub open spec fn black_set_captured(gs: GameState, m: Move) -> PieceSet {
    let v = gs.board@;
    let s1 = if crate::board::colour_at(v, m.1) == PieceColour::Black {
        captured_set(gs.black_pieces, crate::board::kind_at(v, m.1))
    } else {
        gs.black_pieces
    };
    if crate::board::is_en_passant_capture(v, m) && v.colours[crate::board::ep_capture_sq(m)]
        == PieceColour::Black {
        PieceSet { pawn: (s1.pawn - 1) as u8, ..s1 }
    } else {
        s1
    }
}

/// White's piece counts after the whole turn: the captures, and a white
/// promotion's increment.
pub open spec fn white_set_after(gs: GameState, m: Move, choice: PieceType) -> PieceSet {
    let s2 = white_set_captured(gs, m);
    if is_promotion_move(gs.board@, m) && gs.player_turn == 1 {
        promoted_set(s2, choice)
    } else {
        s2
    }
}

/// Black's piece counts after the whole turn.
pub open spec fn black_set_after(gs: GameState, m: Move, choice: PieceType) -> PieceSet {
    let s2 = black_set_captured(gs, m);
    if is_promotion_move(gs.board@, m) && gs.player_turn == 2 {
        promoted_set(s2, choice)
    } else {
        s2
    }
}

/// Decrement the captured side's counts for the capture the move is about
/// to make: the piece on the destination, or the pawn taken en passant.
/// Runs against the board as it stands before the move.
fn update_capture_counts(state: &mut GameState, translation: Move)
    requires
        board_wf(old(state).board@),
        crate::board::coord_wf(translation.0),
        crate::board::coord_wf(translation.1),
        old(state).board@.kinds[crate::board::sq(translation.1)] != PieceType::King,
        turn_counts_ok(*old(state), translation),
    ensures
        *final(state) == (GameState {
            white_pieces: white_set_captured(*old(state), translation),
            black_pieces: black_set_captured(*old(state), translation),
            ..*old(state)
        }),
{
    let origin_index = translation.0.to_index();
    let destination_index = translation.1.to_index();
    let captured_piece = state.board.kinds[destination_index];
    let captured_colour = state.board.colours[destination_index];
    match captured_colour {
        PieceColour::White => {
            match captured_piece {
                PieceType::Pawn => state.white_pieces.pawn = state.white_pieces.pawn - 1,
                PieceType::Rook => state.white_pieces.rook = state.white_pieces.rook - 1,
                PieceType::Knight => state.white_pieces.knight = state.white_pieces.knight - 1,
                PieceType::Bishop => state.white_pieces.bishop = state.white_pieces.bishop - 1,
                PieceType::Queen => state.white_pieces.queen = state.white_pieces.queen - 1,
                _ => {
                    proof {
                        assert(false);
                    }
                },
            }
        },
        PieceColour::Black => {
            match captured_piece {
                PieceType::Pawn => state.black_pieces.pawn = state.black_pieces.pawn - 1,
                PieceType::Rook => state.black_pieces.rook = state.black_pieces.rook - 1,
                PieceType::Knight => state.black_pieces.knight = state.black_pieces.knight - 1,
                PieceType::Bishop => state.black_pieces.bishop = state.black_pieces.bishop - 1,
                PieceType::Queen => state.black_pieces.queen = state.black_pieces.queen - 1,
                _ => {
                    proof {
                        assert(false);
                    }
                },
            }
        },
        PieceColour::Empty => {},
    }
    let was_ep_capture = matches!(state.board.kinds[origin_index], PieceType::Pawn)
        && translation.1.x != translation.0.x && matches!(captured_colour, PieceColour::Empty);
    if was_ep_capture {
        let ep_victim_colour = state.board.colours[translation.0.y * 8 + translation.1.x];
        match ep_victim_colour {
            PieceColour::White => state.white_pieces.pawn = state.white_pieces.pawn - 1,
            PieceColour::Black => state.black_pieces.pawn = state.black_pieces.pawn - 1,
            PieceColour::Empty => {},
        }
    }
}

/// Two boards with the same colours and the same king placement agree on
/// king uniqueness.
proof fn lemma_same_kings(a: BoardView, b: BoardView, c: PieceColour)
    requires
        unique_king(a, c),
        b.colours == a.colours,
        a.kinds.len() == 64,
        b.kinds.len() == a.kinds.len(),
        forall|i: int|
            0 <= i < a.kinds.len() ==> ((#[trigger] b.kinds[i] == PieceType::King) <==> (a.kinds[i]
                == PieceType::King)),
    ensures
        unique_king(b, c),
{
    let ks = crate::movegen::king_square(a, c);
    assert(crate::movegen::is_king_of(a, c, ks));
    assert(crate::movegen::is_king_of(b, c, ks));
    assert forall|i: int| crate::movegen::is_king_of(b, c, i) implies i == ks by {
        assert(crate::movegen::is_king_of(a, c, i));
    }
    assert(crate::movegen::is_king_of(b, c, crate::movegen::king_square(b, c)));
}

/// The state-mutating half of move application, once the move has been
/// validated: board relocation with its side effects, capture and promotion
/// bookkeeping, the move record, fifty-move and repetition history, the
/// castling rights, and the mover's in-check flag.
#[verifier::rlimit(100)]
fn apply_validated_move(state: &mut GameState, translation: Move, promotion_choice: PieceType)
    requires
        gs_wf(*old(state)),
        crate::board::coord_wf(translation.0),
        crate::board::coord_wf(translation.1),
        crate::board::sq(translation.0) != crate::board::sq(translation.1),
        old(state).board@.kinds[crate::board::sq(translation.1)] != PieceType::King,
        crate::board::is_castle_move(old(state).board@, translation)
            ==> crate::board::castle_shape(translation),
        crate::board::is_en_passant_capture(old(state).board@, translation)
            ==> crate::board::ep_capture_sq(translation) != crate::board::sq(translation.1),
        unique_king(
            crate::board::board_after(old(state).board@, translation),
            PieceColour::White,
        ),
        unique_king(
            crate::board::board_after(old(state).board@, translation),
            PieceColour::Black,
        ),
        turn_counts_ok(*old(state), translation),
        is_promotion_move(old(state).board@, translation) ==> valid_promotion(promotion_choice),
        is_promotion_move(old(state).board@, translation) && old(state).player_turn == 1
            ==> promo_headroom(old(state).white_pieces, promotion_choice),
        is_promotion_move(old(state).board@, translation) && old(state).player_turn == 2
            ==> promo_headroom(old(state).black_pieces, promotion_choice),
        old(state).last_capture_or_pawn_move < u8::MAX,
    ensures
        ({
            let old_gs = *old(state);
            let v = old_gs.board@;
            let nb = board_after_turn(v, translation, promotion_choice);
            &&& final(state).board@ == nb
            &&& final(state).white_pieces == white_set_after(old_gs, translation, promotion_choice)
            &&& final(state).black_pieces == black_set_after(old_gs, translation, promotion_choice)
            &&& final(state).last_move == Some(translation)
            &&& (irreversible_move(v, translation) ==> final(state).last_capture_or_pawn_move == 0
                && final(state).table_states_since_last_capture_or_pawn_move@.len() == 1 && final(state).table_states_since_last_capture_or_pawn_move@[0]@ == nb)
            &&& (!irreversible_move(v, translation) ==> final(state).last_capture_or_pawn_move
                == old_gs.last_capture_or_pawn_move + 1 && final(state).table_states_since_last_capture_or_pawn_move@.len()
                == old_gs.table_states_since_last_capture_or_pawn_move@.len() + 1 && (forall|i: int|
                0 <= i < old_gs.table_states_since_last_capture_or_pawn_move@.len()
                    ==> #[trigger] final(state).table_states_since_last_capture_or_pawn_move@[i]
                    == old_gs.table_states_since_last_capture_or_pawn_move@[i]) && final(state).table_states_since_last_capture_or_pawn_move@[old_gs.table_states_since_last_capture_or_pawn_move@.len() as int]@
                == nb)
            &&& final(state).white_can_castle_kingside == (old_gs.white_can_castle_kingside
                && crate::legality::king_home(nb, PieceColour::White)
                && crate::legality::kingside_rook_home(nb, PieceColour::White))
            &&& final(state).black_can_castle_kingside == (old_gs.black_can_castle_kingside
                && crate::legality::king_home(nb, PieceColour::Black)
                && crate::legality::kingside_rook_home(nb, PieceColour::Black))
            &&& final(state).white_can_castle_queenside == (old_gs.white_can_castle_queenside
                && crate::legality::king_home(nb, PieceColour::White)
                && crate::legality::queenside_rook_home(nb, PieceColour::White))
            &&& final(state).black_can_castle_queenside == (old_gs.black_can_castle_queenside
                && crate::legality::king_home(nb, PieceColour::Black)
                && crate::legality::queenside_rook_home(nb, PieceColour::Black))
            &&& final(state).white_in_check == (if old_gs.player_turn == 1 {
                false
            } else {
                old_gs.white_in_check
            })
            &&& final(state).black_in_check == (if old_gs.player_turn == 2 {
                false
            } else {
                old_gs.black_in_check
            })
            &&& final(state).en_passant_possible == old_gs.en_passant_possible
            &&& final(state).player_turn == old_gs.player_turn
            &&& final(state).turn_counter == old_gs.turn_counter
            &&& final(state).white_timer == old_gs.white_timer
            &&& final(state).black_timer == old_gs.black_timer
            &&& final(state).timer_increment == old_gs.timer_increment
            &&& final(state).mode == old_gs.mode
            &&& final(state).game_over == old_gs.game_over
            &&& final(state).move_list == old_gs.move_list
            &&& gs_wf(*final(state))
        }),
{
    let ghost v = old(state).board@;
    let origin_index = translation.0.to_index();
    let is_pawn = matches!(state.board.kinds[origin_index], PieceType::Pawn);
    let is_promotion = is_pawn && (translation.1.y == 0 || translation.1.y == 7);
    let destination_index = translation.1.to_index();
    let captured_piece = state.board.kinds[destination_index];

    // the captured side loses the captured piece from its counts; the board
    // is still the pre-move board here
    update_capture_counts(state, translation);

    // relocate on the board, castling-rook and en-passant side effects
    // included
    let new_board = crate::board::make_move(&state.board, translation);
    state.board = new_board;

    // promotion, strictly after the move itself
    if is_promotion {
        proof {
            let b = crate::board::board_after(v, translation);
            assert(crate::board::kind_at(v, translation.0) == PieceType::Pawn);
            assert(!crate::board::is_castle_move(v, translation));
            assert(b.colours[crate::board::sq(translation.1)] == crate::board::colour_at(
                v,
                translation.0,
            ));
            assert(crate::board::colour_at(state.board@, translation.1) != PieceColour::Empty);
        }
        crate::movegen::Pawn::pawn_promotion(translation.1, state, promotion_choice);
    }
    proof {
        assert(state.board@ == board_after_turn(v, translation, promotion_choice));
    }

    state.last_move = Some(translation);

    // fifty-move count and repetition history: reset on pawn move or
    // capture, extended otherwise
    let irreversible = is_pawn || !matches!(captured_piece, PieceType::Empty);
    if irreversible {
        state.last_capture_or_pawn_move = 0;
        let snapshot = crate::board::clone_board(&state.board);
        let mut fresh_history: Vec<Board> = Vec::new();
        fresh_history.push(snapshot);
        state.table_states_since_last_capture_or_pawn_move = fresh_history;
    } else {
        state.last_capture_or_pawn_move = state.last_capture_or_pawn_move + 1;
        let snapshot = crate::board::clone_board(&state.board);
        state.table_states_since_last_capture_or_pawn_move.push(snapshot);
    }

    crate::movegen::King::check_to_disable_castling(state);

    // the mover cannot have left itself in check; regeneration recomputes
    // both flags from the new position
    if state.player_turn == 1 {
        state.white_in_check = false;
    } else {
        state.black_in_check = false;
    }

    proof {
        let nb = board_after_turn(v, translation, promotion_choice);
        let b = crate::board::board_after(v, translation);
        if is_promotion_move(v, translation) {
            assert(!crate::board::is_castle_move(v, translation));
            assert(b.kinds[crate::board::sq(translation.1)] == PieceType::Pawn);
        }
        lemma_same_kings(b, nb, PieceColour::White);
        lemma_same_kings(b, nb, PieceColour::Black);
        assert(gs_wf(*state));
    }
}

/// Apply one validated turn: relocate the piece (with the castling-rook and
/// en-passant side effects), update the captured side's piece count, resolve
/// promotion from the supplied choice, record the move, reset or extend the
/// fifty-move and repetition history, re-derive the castling rights,
/// regenerate the legal-move list, evaluate termination, and advance the
/// turn, crediting the increment to the side about to move.
///
/// A move absent from the current player's legal list, or a promotion with
/// an invalid choice, is rejected with the state unchanged.
#[verifier::rlimit(100)]
pub fn take_turn(state: &mut GameState, translation: Move, promotion_choice: PieceType) -> (r:
    Result<(), MoveError>)
    requires
        gs_wf(*old(state)),
        crate::legality::move_list_correct(*old(state)),
        in_turn_list(*old(state), translation) ==> old(state).board@.kinds[crate::board::sq(
            translation.1,
        )] != PieceType::King,
        in_turn_list(*old(state), translation) ==> turn_counts_ok(*old(state), translation),
        in_turn_list(*old(state), translation) && old(state).player_turn == 1 ==> promo_headroom(
            old(state).white_pieces,
            promotion_choice,
        ),
        in_turn_list(*old(state), translation) && old(state).player_turn == 2 ==> promo_headroom(
            old(state).black_pieces,
            promotion_choice,
        ),
        old(state).turn_counter < u16::MAX,
        old(state).last_capture_or_pawn_move < u8::MAX,
        old(state).player_turn == 1 ==> old(state).black_timer + old(state).timer_increment
            <= u64::MAX,
        old(state).player_turn == 2 ==> old(state).white_timer + old(state).timer_increment
            <= u64::MAX,
    ensures
        !in_turn_list(*old(state), translation) ==> (r == Err::<(), MoveError>(
            MoveError::NotInMoveList,
        ) && *final(state) == *old(state)),
        (in_turn_list(*old(state), translation) && is_promotion_move(
            old(state).board@,
            translation,
        ) && !valid_promotion(promotion_choice)) ==> (r == Err::<(), MoveError>(
            MoveError::InvalidPromotion,
        ) && *final(state) == *old(state)),
        (in_turn_list(*old(state), translation) && (!is_promotion_move(
            old(state).board@,
            translation,
        ) || valid_promotion(promotion_choice))) ==> {
            let old_gs = *old(state);
            let v = old_gs.board@;
            let nb = board_after_turn(v, translation, promotion_choice);
            &&& r == Ok::<(), MoveError>(())
            &&& final(state).board@ == nb
            &&& final(state).white_pieces == white_set_after(old_gs, translation, promotion_choice)
            &&& final(state).black_pieces == black_set_after(old_gs, translation, promotion_choice)
            &&& final(state).last_move == Some(translation)
            &&& (irreversible_move(v, translation) ==> final(state).last_capture_or_pawn_move == 0
                && final(state).table_states_since_last_capture_or_pawn_move@.len() == 1 && final(state).table_states_since_last_capture_or_pawn_move@[0]@ == nb)
            &&& (!irreversible_move(v, translation) ==> final(state).last_capture_or_pawn_move
                == old_gs.last_capture_or_pawn_move + 1 && final(state).table_states_since_last_capture_or_pawn_move@.len()
                == old_gs.table_states_since_last_capture_or_pawn_move@.len() + 1 && (forall|i: int|
                0 <= i < old_gs.table_states_since_last_capture_or_pawn_move@.len()
                    ==> #[trigger] final(state).table_states_since_last_capture_or_pawn_move@[i]
                    == old_gs.table_states_since_last_capture_or_pawn_move@[i]) && final(state).table_states_since_last_capture_or_pawn_move@[old_gs.table_states_since_last_capture_or_pawn_move@.len() as int]@
                == nb)
            &&& final(state).white_can_castle_kingside == (old_gs.white_can_castle_kingside
                && crate::legality::king_home(nb, PieceColour::White)
                && crate::legality::kingside_rook_home(nb, PieceColour::White))
            &&& final(state).black_can_castle_kingside == (old_gs.black_can_castle_kingside
                && crate::legality::king_home(nb, PieceColour::Black)
                && crate::legality::kingside_rook_home(nb, PieceColour::Black))
            &&& final(state).white_can_castle_queenside == (old_gs.white_can_castle_queenside
                && crate::legality::king_home(nb, PieceColour::White)
                && crate::legality::queenside_rook_home(nb, PieceColour::White))
            &&& final(state).black_can_castle_queenside == (old_gs.black_can_castle_queenside
                && crate::legality::king_home(nb, PieceColour::Black)
                && crate::legality::queenside_rook_home(nb, PieceColour::Black))
            &&& final(state).white_in_check == crate::movegen::in_check(nb, PieceColour::White)
            &&& final(state).black_in_check == crate::movegen::in_check(nb, PieceColour::Black)
            &&& final(state).en_passant_possible == (crate::legality::ep_double_step(
                nb,
                translation,
            ) && (crate::legality::ep_left_ok(nb, translation) || crate::legality::ep_right_ok(
                nb,
                translation,
            )))
            &&& crate::legality::move_list_correct(*final(state))
            &&& final(state).turn_counter == old_gs.turn_counter + 1
            &&& (old_gs.player_turn == 1 ==> final(state).black_timer == old_gs.black_timer
                + old_gs.timer_increment && final(state).white_timer == old_gs.white_timer && final(state).player_turn == 2)
            &&& (old_gs.player_turn == 2 ==> final(state).white_timer == old_gs.white_timer
                + old_gs.timer_increment && final(state).black_timer == old_gs.black_timer && final(state).player_turn == 1)
            &&& final(state).timer_increment == old_gs.timer_increment
            &&& final(state).mode == old_gs.mode
            &&& final(state).game_over == (old_gs.game_over || game_end_spec(
                (GameState {
                    white_timer: old_gs.white_timer,
                    black_timer: old_gs.black_timer,
                    turn_counter: old_gs.turn_counter,
                    player_turn: old_gs.player_turn,
                    game_over: old_gs.game_over,
                    ..*final(state)
                }),
            ) != None::<GameEnd>)
            &&& gs_wf(*final(state))
        },
{
    let ghost old_gs = *old(state);
    let ghost v = old_gs.board@;
    let ghost c = turn_colour(old_gs.player_turn);

    // the move must come from the current player's legal list
    let in_list = if state.player_turn == 1 {
        crate::movegen::contains_move(&state.move_list.white, &translation)
    } else {
        crate::movegen::contains_move(&state.move_list.black, &translation)
    };
    if !in_list {
        return Err(MoveError::NotInMoveList);
    }
    proof {
        assert(crate::legality::legal_member(old_gs, c, translation));
        crate::legality::lemma_applicable(old_gs, c, translation);
    }

    let origin_index = translation.0.to_index();
    let destination_index = translation.1.to_index();
    let is_pawn = matches!(state.board.kinds[origin_index], PieceType::Pawn);
    let is_promotion = is_pawn && (translation.1.y == 0 || translation.1.y == 7);
    if is_promotion && !(matches!(promotion_choice, PieceType::Rook) || matches!(
        promotion_choice,
        PieceType::Knight,
    ) || matches!(promotion_choice, PieceType::Bishop) || matches!(
        promotion_choice,
        PieceType::Queen,
    )) {
        return Err(MoveError::InvalidPromotion);
    }

    apply_validated_move(state, translation, promotion_choice);
    crate::legality::get_legal_move_list(state);
    let ghost post_list_gs = *state;

    // termination
    let ending = game_end(state);
    if ending.is_some() {
        state.game_over = true;
    }

    state.turn_counter = state.turn_counter + 1;

    // the increment is credited to the side about to move next
    if state.player_turn == 1 {
        state.black_timer = state.black_timer + state.timer_increment;
    } else {
        state.white_timer = state.white_timer + state.timer_increment;
    }
    if state.player_turn == 1 {
        state.player_turn = 2;
    } else {
        state.player_turn = 1;
    }

    proof {
        assert forall|m: Move| #[trigger]
            final(state).move_list.white@.contains(m) <==> crate::legality::legal_member(
                *final(state),
                PieceColour::White,
                m,
            ) by {
            crate::legality::lemma_legal_member_congruence(
                post_list_gs,
                *final(state),
                PieceColour::White,
                m,
            );
        }
        assert forall|m: Move| #[trigger]
            final(state).move_list.black@.contains(m) <==> crate::legality::legal_member(
                *final(state),
                PieceColour::Black,
                m,
            ) by {
            crate::legality::lemma_legal_member_congruence(
                post_list_gs,
                *final(state),
                PieceColour::Black,
                m,
            );
        }
    }
    Ok(())
}

} // verus!
