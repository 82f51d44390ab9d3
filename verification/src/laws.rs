//! Library-wide laws, stated and proved once so a reader sees them rather
//! than having to derive them from the individual contracts.

use vstd::prelude::*;
use crate::board::{BoardView, Coordinates, PieceColour, PieceType, board_wf, coord_at, coord_wf, sq};
use crate::movegen::{MoveDirection, lemma_ray_monotone, move_dist, ray_on_board, ray_sq, reachable_in_dir};

verus! {

/// Square indices and coordinates are in bijection, one way: converting any
/// of the 64 square indices to a coordinate and back is the identity, and the
/// coordinate lies on the board.
pub proof fn lemma_index_coordinate_round_trip(i: int)
    requires
        0 <= i < 64,
    ensures
        coord_wf(coord_at(i)),
        sq(coord_at(i)) == i,
{
}

/// Square indices and coordinates are in bijection, the other way: converting
/// any on-board coordinate to its index and back is the identity.
pub proof fn lemma_coordinate_index_round_trip(c: Coordinates)
    requires
        coord_wf(c),
    ensures
        0 <= sq(c) < 64,
        coord_at(sq(c)) == c,
{
}

/// A sliding move never jumps over an occupied square: every square strictly
/// between the origin and the destination of a reachable sliding destination
/// — as the rook, bishop and queen generators produce them — is empty on the
/// pre-move board.
pub proof fn lemma_sliding_no_jump(
    v: BoardView,
    o: Coordinates,
    dir: MoveDirection,
    d: Coordinates,
    j: int,
)
    requires
        board_wf(v),
        coord_wf(o),
        reachable_in_dir(v, o, dir, d),
        1 <= j < move_dist((o, d)),
    ensures
        ray_on_board(o, dir, j),
        v.colours[ray_sq(o, dir, j)] == PieceColour::Empty,
        v.kinds[ray_sq(o, dir, j)] == PieceType::Empty,
{
    assert(ray_on_board(o, dir, move_dist((o, d))));
    lemma_ray_monotone(o, dir, j, move_dist((o, d)));
    assert(0 <= ray_sq(o, dir, j) < 64);
}

} // verus!
