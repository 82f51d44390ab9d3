//! Board representation: square coordinates, piece kinds and colours, the
//! 64-square board held as two parallel arrays, and plain move application.

use vstd::prelude::*;

verus! {

broadcast use vstd::seq_lib::lemma_seq_contains_after_push;

/// Colour of the piece standing on a square; `Empty` for a vacant square.
#[derive(Debug, Clone, Copy, PartialEq, Eq, Structural)]
pub enum PieceColour {
    Black,
    White,
    Empty,
}

/// Kind of the piece standing on a square; `Empty` for a vacant square.
#[derive(Debug, Clone, Copy, PartialEq, Eq, Structural)]
pub enum PieceType {
    King,
    Queen,
    Pawn,
    Bishop,
    Knight,
    Rook,
    Empty,
}

/// The colour of the opposing side.
pub open spec fn opposite_colour(c: PieceColour) -> PieceColour {
    match c {
        PieceColour::White => PieceColour::Black,
        PieceColour::Black => PieceColour::White,
        PieceColour::Empty => PieceColour::Empty,
    }
}

/// A square named by file (`x`) and rank (`y`), each in `0..8`.
/// White's back rank is `y == 0`; black's is `y == 7`.
#[derive(Debug, Clone, Copy, PartialEq, Eq, Structural)]
pub struct Coordinates {
    pub x: usize,
    pub y: usize,
}

/// The coordinate lies on the board.
pub open spec fn coord_wf(c: Coordinates) -> bool {
    c.x < 8 && c.y < 8
}

/// The linear index of a coordinate, row-major from white's back rank.
pub open spec fn sq(c: Coordinates) -> int {
    c.y as int * 8 + c.x as int
}

/// The coordinate of a linear index.
pub open spec fn coord_at(i: int) -> Coordinates {
    Coordinates { x: (i % 8) as usize, y: (i / 8) as usize }
}

/// Error returned when a sideways step would leave the move's rank.
#[derive(Debug, Clone, Copy, PartialEq, Eq, Structural)]
pub struct RunOffError;

/// Signed difference between two coordinates.
#[derive(Debug, Clone, Copy, PartialEq, Eq, Structural)]
pub struct CoordDiff {
    pub x: i8,
    pub y: i8,
}

impl Coordinates {
    /// Convert a linear square index in `0..64` to a coordinate.
    pub fn from_index(index: usize) -> (r: Coordinates)
        requires
            index < 64,
        ensures
            r == coord_at(index as int),
            coord_wf(r),
            sq(r) == index as int,
    {
        Coordinates { x: index % 8, y: index / 8 }
    }

    /// Convert a coordinate back to its linear square index.
    pub fn to_index(self) -> (r: usize)
        requires
            coord_wf(self),
        ensures
            r as int == sq(self),
            r < 64,
    {
        self.y * 8 + self.x
    }

    /// A lateral neighbour is on the board only if it kept the rank:
    /// `Ok` exactly when both coordinates share `y`.
    pub fn does_move_run_off_side(self, coord_2: Self) -> (r: Result<Self, RunOffError>)
        ensures
            self.y == coord_2.y ==> r == Ok::<Coordinates, RunOffError>(self),
            self.y != coord_2.y ==> r == Err::<Coordinates, RunOffError>(RunOffError),
    {
        if self.y == coord_2.y {
            Ok(self)
        } else {
            Err(RunOffError)
        }
    }

    /// Componentwise difference, `self - other`.
    pub fn diff(self, other: Self) -> (r: CoordDiff)
        requires
            coord_wf(self),
            coord_wf(other),
        ensures
            r.x as int == self.x as int - other.x as int,
            r.y as int == self.y as int - other.y as int,
    {
        CoordDiff { x: self.x as i8 - other.x as i8, y: self.y as i8 - other.y as i8 }
    }
}

/// A move: origin and destination coordinates. Validity is contextual and is
/// established by the generator and the legality filter.
pub type Move = (Coordinates, Coordinates);

/// A list of moves.
pub type MoveList = Vec<Move>;

/// The board: piece kind and piece colour per square, two parallel
/// 64-entry arrays.
#[derive(Debug, Clone)]
pub struct Board {
    pub kinds: Vec<PieceType>,
    pub colours: Vec<PieceColour>,
}

/// Mathematical view of a board: the two arrays as sequences.
#[verifier::ext_equal]
pub struct BoardView {
    pub kinds: Seq<PieceType>,
    pub colours: Seq<PieceColour>,
}

impl View for Board {
    type V = BoardView;

    open spec fn view(&self) -> BoardView {
        BoardView { kinds: self.kinds@, colours: self.colours@ }
    }
}

/// Well-formed board: 64 squares, and a square's kind is empty exactly when
/// its colour is empty.
pub open spec fn board_wf(v: BoardView) -> bool {
    &&& v.kinds.len() == 64
    &&& v.colours.len() == 64
    &&& forall|i: int|
        0 <= i < 64 ==> ((v.kinds[i] == PieceType::Empty) <==> (v.colours[i]
            == PieceColour::Empty))
}

/// Kind of the piece on square `c`.
pub open spec fn kind_at(v: BoardView, c: Coordinates) -> PieceType {
    v.kinds[sq(c)]
}

/// Colour of the piece on square `c`.
pub open spec fn colour_at(v: BoardView, c: Coordinates) -> PieceColour {
    v.colours[sq(c)]
}

/// Piece kind of the standard starting position at linear index `i`.
pub open spec fn start_kind_at(i: int) -> PieceType {
    let x = i % 8;
    let y = i / 8;
    if y == 0 || y == 7 {
        if x == 0 || x == 7 {
            PieceType::Rook
        } else if x == 1 || x == 6 {
            PieceType::Knight
        } else if x == 2 || x == 5 {
            PieceType::Bishop
        } else if x == 3 {
            PieceType::Queen
        } else {
            PieceType::King
        }
    } else if y == 1 || y == 6 {
        PieceType::Pawn
    } else {
        PieceType::Empty
    }
}

/// Piece colour of the standard starting position at linear index `i`.
pub open spec fn start_colour_at(i: int) -> PieceColour {
    if i < 16 {
        PieceColour::White
    } else if 48 <= i {
        PieceColour::Black
    } else {
        PieceColour::Empty
    }
}

/// The standard starting position.
pub open spec fn start_board() -> BoardView {
    BoardView {
        kinds: Seq::new(64, |i: int| start_kind_at(i)),
        colours: Seq::new(64, |i: int| start_colour_at(i)),
    }
}

/// Exec mirror of `start_kind_at`.
fn start_kind(index: usize) -> (r: PieceType)
    requires
        index < 64,
    ensures
        r == start_kind_at(index as int),
{
    let x = index % 8;
    let y = index / 8;
    if y == 0 || y == 7 {
        if x == 0 || x == 7 {
            PieceType::Rook
        } else if x == 1 || x == 6 {
            PieceType::Knight
        } else if x == 2 || x == 5 {
            PieceType::Bishop
        } else if x == 3 {
            PieceType::Queen
        } else {
            PieceType::King
        }
    } else if y == 1 || y == 6 {
        PieceType::Pawn
    } else {
        PieceType::Empty
    }
}

/// Exec mirror of `start_colour_at`.
fn start_colour(index: usize) -> (r: PieceColour)
    requires
        index < 64,
    ensures
        r == start_colour_at(index as int),
{
    if index < 16 {
        PieceColour::White
    } else if 48 <= index {
        PieceColour::Black
    } else {
        PieceColour::Empty
    }
}

/// Build the standard starting position.
pub fn generate_start_board() -> (r: Board)
    ensures
        r@ == start_board(),
        board_wf(r@),
{
    let mut kinds: Vec<PieceType> = Vec::new();
    let mut colours: Vec<PieceColour> = Vec::new();
    for i in 0..64
        invariant
            kinds@.len() == i,
            colours@.len() == i,
            forall|j: int| 0 <= j < i ==> kinds@[j] == start_kind_at(j),
            forall|j: int| 0 <= j < i ==> colours@[j] == start_colour_at(j),
    {
        kinds.push(start_kind(i));
        colours.push(start_colour(i));
    }
    let r = Board { kinds, colours };
    proof {
        assert(r@.kinds =~= start_board().kinds);
        assert(r@.colours =~= start_board().colours);
        assert(r@ =~= start_board());
        assert forall|i: int| 0 <= i < 64 implies ((r@.kinds[i] == PieceType::Empty) <==> (
        r@.colours[i] == PieceColour::Empty)) by {
            assert(r@.kinds[i] == start_kind_at(i));
            assert(r@.colours[i] == start_colour_at(i));
        }
    }
    r
}

/// Whether the destination of `movement` is occupied, and whether origin and
/// destination carry the same colour.
pub fn is_square_occupied(movement: Move, board: &Board) -> (r: (bool, bool))
    requires
        board_wf(board@),
        coord_wf(movement.0),
        coord_wf(movement.1),
    ensures
        r.0 == (colour_at(board@, movement.1) != PieceColour::Empty),
        r.1 == (colour_at(board@, movement.0) == colour_at(board@, movement.1)),
{
    let origin_colour = board.colours[movement.0.to_index()];
    let target_colour = board.colours[movement.1.to_index()];
    let is_occupied = match target_colour {
        PieceColour::Empty => false,
        _ => true,
    };
    (is_occupied, origin_colour == target_colour)
}

/// The square `(x, y)` is a light square exactly when `x + y` is odd.
pub fn checker_board(square: Coordinates) -> (r: bool)
    requires
        coord_wf(square),
    ensures
        r == ((square.x as int + square.y as int) % 2 == 1),
{
    (square.x + square.y) % 2 != 0
}

/// Compare two boards square by square.
pub fn boards_equal(a: &Board, b: &Board) -> (r: bool)
    requires
        board_wf(a@),
        board_wf(b@),
    ensures
        r == (a@ == b@),
{
    let mut i: usize = 0;
    while i < 64
        invariant
            i <= 64,
            board_wf(a@),
            board_wf(b@),
            forall|j: int| 0 <= j < i ==> a@.kinds[j] == b@.kinds[j],
            forall|j: int| 0 <= j < i ==> a@.colours[j] == b@.colours[j],
        decreases 64 - i,
    {
        if !(a.kinds[i] == b.kinds[i] && a.colours[i] == b.colours[i]) {
            return false;
        }
        i += 1;
    }
    proof {
        assert(a@.kinds =~= b@.kinds);
        assert(a@.colours =~= b@.colours);
        assert(a@ =~= b@);
    }
    true
}

/// Absolute value.
pub open spec fn abs_int(a: int) -> int {
    if a < 0 {
        -a
    } else {
        a
    }
}

/// The move takes a king more than one file sideways: this is how applying a
/// castle is recognised, there being no separate castling move representation.
pub open spec fn is_castle_move(v: BoardView, m: Move) -> bool {
    kind_at(v, m.0) == PieceType::King && abs_int(m.1.x as int - m.0.x as int) > 1
}

/// Shape of the only castle moves this engine synthesises: the king stays on
/// its rank, starts on file 4 and ends on file 2 or 6.
pub open spec fn castle_shape(m: Move) -> bool {
    m.0.y == m.1.y && m.0.x == 4 && (m.1.x == 2 || m.1.x == 6)
}

/// The move takes a pawn diagonally onto an empty square: an en-passant
/// capture, whose victim stands beside the origin rather than on the
/// destination.
pub open spec fn is_en_passant_capture(v: BoardView, m: Move) -> bool {
    kind_at(v, m.0) == PieceType::Pawn && m.1.x != m.0.x && colour_at(v, m.1)
        == PieceColour::Empty
}

/// Square of the pawn captured en passant: the destination's file on the
/// origin's rank.
pub open spec fn ep_capture_sq(m: Move) -> int {
    m.0.y as int * 8 + m.1.x as int
}

/// The board after applying `m`: the origin is vacated and the moved piece
/// placed on the destination; a castle also relocates the paired rook; an
/// en-passant capture also removes the captured pawn.
pub open spec fn board_after(v: BoardView, m: Move) -> BoardView {
    let k0 = v.kinds.update(sq(m.0), PieceType::Empty).update(sq(m.1), kind_at(v, m.0));
    let c0 = v.colours.update(sq(m.0), PieceColour::Empty).update(sq(m.1), colour_at(v, m.0));
    if is_castle_move(v, m) {
        if m.1.x > m.0.x {
            BoardView {
                kinds: k0.update(sq(m.1) + 1, PieceType::Empty).update(
                    sq(m.0) + 1,
                    PieceType::Rook,
                ),
                colours: c0.update(sq(m.1) + 1, PieceColour::Empty).update(
                    sq(m.0) + 1,
                    colour_at(v, m.0),
                ),
            }
        } else {
            BoardView {
                kinds: k0.update(sq(m.1) - 2, PieceType::Empty).update(
                    sq(m.0) - 1,
                    PieceType::Rook,
                ),
                colours: c0.update(sq(m.1) - 2, PieceColour::Empty).update(
                    sq(m.0) - 1,
                    colour_at(v, m.0),
                ),
            }
        }
    } else if is_en_passant_capture(v, m) {
        BoardView {
            kinds: k0.update(ep_capture_sq(m), PieceType::Empty),
            colours: c0.update(ep_capture_sq(m), PieceColour::Empty),
        }
    } else {
        BoardView { kinds: k0, colours: c0 }
    }
}

/// Apply a move to a copy of the board: relocate the piece, and perform the
/// castling-rook and en-passant side effects where the move calls for them.
pub fn make_move(board: &Board, translation: Move) -> (r: Board)
    requires
        board_wf(board@),
        coord_wf(translation.0),
        coord_wf(translation.1),
        is_castle_move(board@, translation) ==> castle_shape(translation),
    ensures
        r@ == board_after(board@, translation),
        board_wf(r@),
{
    let ghost v = board@;
    let mut kinds = copy_kinds(&board.kinds);
    let mut colours = copy_colours(&board.colours);
    let origin_index = translation.0.to_index();
    let destination_index = translation.1.to_index();
    let piece_type = board.kinds[origin_index];
    let piece_colour = board.colours[origin_index];
    kinds.set(origin_index, PieceType::Empty);
    kinds.set(destination_index, piece_type);
    colours.set(origin_index, PieceColour::Empty);
    colours.set(destination_index, piece_colour);

    let x_spread = if translation.1.x >= translation.0.x {
        translation.1.x - translation.0.x
    } else {
        translation.0.x - translation.1.x
    };
    if matches!(piece_type, PieceType::King) && x_spread > 1 {
        // the king castled: relocate the paired rook in the same step
        if translation.1.x > translation.0.x {
            kinds.set(destination_index + 1, PieceType::Empty);
            colours.set(destination_index + 1, PieceColour::Empty);
            kinds.set(origin_index + 1, PieceType::Rook);
            colours.set(origin_index + 1, piece_colour);
        } else {
            kinds.set(destination_index - 2, PieceType::Empty);
            colours.set(destination_index - 2, PieceColour::Empty);
            kinds.set(origin_index - 1, PieceType::Rook);
            colours.set(origin_index - 1, piece_colour);
        }
    } else if matches!(piece_type, PieceType::Pawn) && translation.1.x != translation.0.x
        && matches!(board.colours[destination_index], PieceColour::Empty) {
        // en passant: the captured pawn stands beside the origin, not on the
        // destination
        let captured = translation.0.y * 8 + translation.1.x;
        kinds.set(captured, PieceType::Empty);
        colours.set(captured, PieceColour::Empty);
    }
    let r = Board { kinds, colours };
    proof {
        assert(r@.kinds =~= board_after(v, translation).kinds);
        assert(r@.colours =~= board_after(v, translation).colours);
        assert(r@ =~= board_after(v, translation));
        assert forall|i: int| 0 <= i < 64 implies ((r@.kinds[i] == PieceType::Empty) <==> (
        r@.colours[i] == PieceColour::Empty)) by {}
    }
    r
}

/// Copy the kind array of a board.
fn copy_kinds(v: &Vec<PieceType>) -> (r: Vec<PieceType>)
    ensures
        r@ == v@,
{
    let mut r: Vec<PieceType> = Vec::new();
    let mut i: usize = 0;
    while i < v.len()
        invariant
            i <= v@.len(),
            r@ =~= v@.take(i as int),
        decreases v@.len() - i,
    {
        r.push(v[i]);
        i += 1;
    }
    proof {
        assert(r@ =~= v@);
    }
    r
}

/// Copy the colour array of a board.
fn copy_colours(v: &Vec<PieceColour>) -> (r: Vec<PieceColour>)
    ensures
        r@ == v@,
{
    let mut r: Vec<PieceColour> = Vec::new();
    let mut i: usize = 0;
    while i < v.len()
        invariant
            i <= v@.len(),
            r@ =~= v@.take(i as int),
        decreases v@.len() - i,
    {
        r.push(v[i]);
        i += 1;
    }
    proof {
        assert(r@ =~= v@);
    }
    r
}

/// Turn a decoded move request — a pair of square indices — into a move.
pub fn parse_coordinates_from_payload(payload: Vec<u8>) -> (r: Move)
    requires
        payload@.len() >= 2,
        payload@[0] < 64,
        payload@[1] < 64,
    ensures
        r.0 == coord_at(payload@[0] as int),
        r.1 == coord_at(payload@[1] as int),
        coord_wf(r.0),
        coord_wf(r.1),
{
    let origin = Coordinates::from_index(payload[0] as usize);
    let destination = Coordinates::from_index(payload[1] as usize);
    (origin, destination)
}

/// Copy a whole board.
pub fn clone_board(b: &Board) -> (r: Board)
    ensures
        r@ == b@,
{
    let r = Board { kinds: copy_kinds(&b.kinds), colours: copy_colours(&b.colours) };
    proof {
        assert(r@ =~= b@);
    }
    r
}

} // verus!
