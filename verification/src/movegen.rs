//! Pseudo-legal move generation: per piece kind, every destination reachable
//! by that piece's geometry against the current board, respecting blocking
//! and capture but ignoring whether the mover's own king is exposed.

use vstd::prelude::*;
use crate::board::{
    Board, BoardView, Coordinates, Move, MoveList, PieceColour, PieceType, abs_int, board_after,
    board_wf, colour_at, coord_at, coord_wf, is_square_occupied, kind_at, opposite_colour, sq,
};

verus! {

broadcast use vstd::seq_lib::lemma_seq_contains_after_push, vstd::seq_lib::lemma_seq_concat_contains_all_elements;

/// One of the eight compass directions a move can take.
/// North is toward white's back rank (decreasing `y`).
#[derive(Debug, Clone, Copy, PartialEq, Eq, Structural)]
pub enum MoveDirection {
    North,
    NorthEast,
    East,
    SouthEast,
    South,
    SouthWest,
    West,
    NorthWest,
}

/// File component of a unit step in direction `d`.
pub open spec fn dir_dx(d: MoveDirection) -> int {
    match d {
        MoveDirection::North => 0,
        MoveDirection::NorthEast => 1,
        MoveDirection::East => 1,
        MoveDirection::SouthEast => 1,
        MoveDirection::South => 0,
        MoveDirection::SouthWest => -1,
        MoveDirection::West => -1,
        MoveDirection::NorthWest => -1,
    }
}

/// Rank component of a unit step in direction `d`.
pub open spec fn dir_dy(d: MoveDirection) -> int {
    match d {
        MoveDirection::North => -1,
        MoveDirection::NorthEast => -1,
        MoveDirection::East => 0,
        MoveDirection::SouthEast => 1,
        MoveDirection::South => 1,
        MoveDirection::SouthWest => 1,
        MoveDirection::West => 0,
        MoveDirection::NorthWest => -1,
    }
}

/// The move's displacement points into direction `d` (by sign alone).
pub open spec fn dir_matches(d: MoveDirection, m: Move) -> bool {
    let dx = m.1.x as int - m.0.x as int;
    let dy = m.1.y as int - m.0.y as int;
    match d {
        MoveDirection::North => dx == 0 && dy < 0,
        MoveDirection::NorthEast => dx > 0 && dy < 0,
        MoveDirection::East => dx > 0 && dy == 0,
        MoveDirection::SouthEast => dx > 0 && dy > 0,
        MoveDirection::South => dx == 0 && dy > 0,
        MoveDirection::SouthWest => dx < 0 && dy > 0,
        MoveDirection::West => dx < 0 && dy == 0,
        MoveDirection::NorthWest => dx < 0 && dy < 0,
    }
}

/// Chebyshev distance of a move: how many unit steps its displacement spans.
pub open spec fn move_dist(m: Move) -> int {
    let dx = abs_int(m.1.x as int - m.0.x as int);
    let dy = abs_int(m.1.y as int - m.0.y as int);
    if dx >= dy {
        dx
    } else {
        dy
    }
}

/// File of the `k`-th square along the ray from `o` in direction `dir`.
pub open spec fn ray_x(o: Coordinates, dir: MoveDirection, k: int) -> int {
    if dir_dx(dir) == 1 {
        o.x + k
    } else if dir_dx(dir) == -1 {
        o.x - k
    } else {
        o.x as int
    }
}

/// Rank of the `k`-th square along the ray from `o` in direction `dir`.
pub open spec fn ray_y(o: Coordinates, dir: MoveDirection, k: int) -> int {
    if dir_dy(dir) == 1 {
        o.y + k
    } else if dir_dy(dir) == -1 {
        o.y - k
    } else {
        o.y as int
    }
}

/// The `k`-th ray square lies on the board.
pub open spec fn ray_on_board(o: Coordinates, dir: MoveDirection, k: int) -> bool {
    0 <= ray_x(o, dir, k) < 8 && 0 <= ray_y(o, dir, k) < 8
}

/// Linear index of the `k`-th ray square.
pub open spec fn ray_sq(o: Coordinates, dir: MoveDirection, k: int) -> int {
    ray_y(o, dir, k) * 8 + ray_x(o, dir, k)
}

/// `d` is exactly the `k`-th square of the ray.
pub open spec fn at_ray(o: Coordinates, dir: MoveDirection, k: int, d: Coordinates) -> bool {
    d.x as int == ray_x(o, dir, k) && d.y as int == ray_y(o, dir, k)
}

/// Every square strictly between the origin and the `k`-th ray square is empty.
pub open spec fn ray_clear_to(v: BoardView, o: Coordinates, dir: MoveDirection, k: int) -> bool {
    forall|j: int| 1 <= j < k ==> v.colours[ray_sq(o, dir, j)] == PieceColour::Empty
}

/// The destination is empty or holds a piece of another colour than the
/// origin, so a slider or king may finish its move there.
pub open spec fn dest_free_or_enemy(v: BoardView, o: Coordinates, d: Coordinates) -> bool {
    colour_at(v, d) == PieceColour::Empty || colour_at(v, d) != colour_at(v, o)
}

/// `d` is reachable from `o` by sliding in direction `dir`: it is on the ray,
/// every strictly intermediate square is empty, and it is free or an enemy.
pub open spec fn reachable_in_dir(
    v: BoardView,
    o: Coordinates,
    dir: MoveDirection,
    d: Coordinates,
) -> bool {
    let k = move_dist((o, d));
    &&& coord_wf(d)
    &&& 1 <= k
    &&& at_ray(o, dir, k, d)
    &&& ray_clear_to(v, o, dir, k)
    &&& dest_free_or_enemy(v, o, d)
}

/// Origin and destination share a rank or a file but not both.
pub open spec fn lateral_shape(o: Coordinates, d: Coordinates) -> bool {
    (o.x == d.x && o.y != d.y) || (o.x != d.x && o.y == d.y)
}

/// Origin and destination lie on a common diagonal (the origin itself included).
pub open spec fn diagonal_shape(o: Coordinates, d: Coordinates) -> bool {
    abs_int(d.x as int - o.x as int) == abs_int(d.y as int - o.y as int)
}

impl MoveDirection {
    /// Whether a move's displacement points into this direction.
    /// This is the membership test used to partition a move list by compass
    /// direction.
    pub fn matches_move(&self, element: &Move) -> (r: bool)
        ensures
            r == dir_matches(*self, *element),
    {
        let o = element.0;
        let d = element.1;
        match self {
            MoveDirection::North => d.x == o.x && d.y < o.y,
            MoveDirection::NorthEast => d.x > o.x && d.y < o.y,
            MoveDirection::East => d.x > o.x && d.y == o.y,
            MoveDirection::SouthEast => d.x > o.x && d.y > o.y,
            MoveDirection::South => d.x == o.x && d.y > o.y,
            MoveDirection::SouthWest => d.x < o.x && d.y > o.y,
            MoveDirection::West => d.x < o.x && d.y == o.y,
            MoveDirection::NorthWest => d.x < o.x && d.y < o.y,
        }
    }
}

/// Chebyshev distance of a move, the sort key that orders a directional move
/// list by increasing distance from its origin.
pub fn move_distance(m: &Move) -> (r: usize)
    requires
        coord_wf(m.0),
        coord_wf(m.1),
    ensures
        r as int == move_dist(*m),
{
    let dx = if m.1.x >= m.0.x {
        m.1.x - m.0.x
    } else {
        m.0.x - m.1.x
    };
    let dy = if m.1.y >= m.0.y {
        m.1.y - m.0.y
    } else {
        m.0.y - m.1.y
    };
    if dx >= dy {
        dx
    } else {
        dy
    }
}

/// Whether `list` holds the exact move `m`.
pub fn contains_move(list: &MoveList, m: &Move) -> (r: bool)
    ensures
        r == list@.contains(*m),
{
    let mut i: usize = 0;
    while i < list.len()
        invariant
            i <= list@.len(),
            forall|j: int| 0 <= j < i ==> list@[j] != *m,
        decreases list@.len() - i,
    {
        let e = &list[i];
        if e.0 == m.0 && e.1 == m.1 {
            proof {
                assert(list@[i as int] == *m);
            }
            return true;
        }
        i += 1;
    }
    proof {
        assert(!list@.contains(*m)) by {
            if list@.contains(*m) {
                let j = choose|j: int| 0 <= j < list@.len() && list@[j] == *m;
                assert(list@[j] != *m);
            }
        }
    }
    false
}

/// All destinations sharing the origin's rank or file (the origin excluded),
/// paired with that origin. Occupancy is not consulted here.
pub fn generate_lateral_moves(origin: Coordinates, board: &Board) -> (r: MoveList)
    requires
        board_wf(board@),
    ensures
        forall|m: Move| #[trigger]
            r@.contains(m) <==> (m.0 == origin && coord_wf(m.1) && lateral_shape(origin, m.1)),
{
    let mut r: MoveList = Vec::new();
    let mut index: usize = 0;
    while index < 64
        invariant
            index <= 64,
            forall|m: Move| #[trigger]
                r@.contains(m) <==> (m.0 == origin && coord_wf(m.1) && lateral_shape(origin, m.1)
                    && sq(m.1) < index),
        decreases 64 - index,
    {
        let destination = Coordinates::from_index(index);
        if (origin.x == destination.x) != (origin.y == destination.y) {
            r.push((origin, destination));
        }
        proof {
            assert forall|m: Move| #[trigger] r@.contains(m) implies (m.0 == origin && coord_wf(
            m.1) && lateral_shape(origin, m.1) && sq(m.1) < index + 1) by {}
            assert forall|m: Move|
                m.0 == origin && coord_wf(m.1) && lateral_shape(origin, m.1) && sq(m.1) < index
                    + 1 implies #[trigger] r@.contains(m) by {
                if sq(m.1) == index {
                    assert(m.1 == coord_at(index as int));
                }
            }
        }
        index += 1;
    }
    r
}

/// All destinations on a common diagonal with the origin (the origin square
/// itself included, as its diagonal offset is zero on both axes), paired with
/// that origin. Occupancy is not consulted here.
pub fn generate_diagonal_moves(origin: Coordinates, board: &Board) -> (r: MoveList)
    requires
        board_wf(board@),
    ensures
        forall|m: Move| #[trigger]
            r@.contains(m) <==> (m.0 == origin && coord_wf(m.1) && diagonal_shape(origin, m.1)),
{
    let mut r: MoveList = Vec::new();
    let mut index: usize = 0;
    while index < 64
        invariant
            index <= 64,
            forall|m: Move| #[trigger]
                r@.contains(m) <==> (m.0 == origin && coord_wf(m.1) && diagonal_shape(origin, m.1)
                    && sq(m.1) < index),
        decreases 64 - index,
    {
        let destination = Coordinates::from_index(index);
        let dx = if destination.x >= origin.x {
            destination.x - origin.x
        } else {
            origin.x - destination.x
        };
        let dy = if destination.y >= origin.y {
            destination.y - origin.y
        } else {
            origin.y - destination.y
        };
        if dx == dy {
            r.push((origin, destination));
        }
        proof {
            assert forall|m: Move|
                m.0 == origin && coord_wf(m.1) && diagonal_shape(origin, m.1) && sq(m.1) < index
                    + 1 implies #[trigger] r@.contains(m) by {
                if sq(m.1) == index {
                    assert(m.1 == coord_at(index as int));
                }
            }
        }
        index += 1;
    }
    r
}

/// A ray square nearer the origin than one on the board is on the board too.
pub proof fn lemma_ray_monotone(o: Coordinates, dir: MoveDirection, k: int, k2: int)
    requires
        coord_wf(o),
        1 <= k <= k2,
        ray_on_board(o, dir, k2),
    ensures
        ray_on_board(o, dir, k),
{
    match dir {
        MoveDirection::North => assert(ray_on_board(o, dir, k)),
        MoveDirection::NorthEast => assert(ray_on_board(o, dir, k)),
        MoveDirection::East => assert(ray_on_board(o, dir, k)),
        MoveDirection::SouthEast => assert(ray_on_board(o, dir, k)),
        MoveDirection::South => assert(ray_on_board(o, dir, k)),
        MoveDirection::SouthWest => assert(ray_on_board(o, dir, k)),
        MoveDirection::West => assert(ray_on_board(o, dir, k)),
        MoveDirection::NorthWest => assert(ray_on_board(o, dir, k)),
    }
}

/// The `k`-th square along `direction` from `origin`, if it lies on the board.
fn dir_step(origin: Coordinates, direction: &MoveDirection, k: usize) -> (r: Option<Coordinates>)
    requires
        coord_wf(origin),
        1 <= k <= 7,
    ensures
        match r {
            Some(d) => coord_wf(d) && at_ray(origin, *direction, k as int, d) && ray_on_board(
                origin,
                *direction,
                k as int,
            ) && move_dist((origin, d)) == k as int,
            None => !ray_on_board(origin, *direction, k as int),
        },
{
    match direction {
        MoveDirection::North => {
            if origin.y >= k {
                Some(Coordinates { x: origin.x, y: origin.y - k })
            } else {
                None
            }
        },
        MoveDirection::NorthEast => {
            if origin.y >= k && origin.x + k < 8 {
                Some(Coordinates { x: origin.x + k, y: origin.y - k })
            } else {
                None
            }
        },
        MoveDirection::East => {
            if origin.x + k < 8 {
                Some(Coordinates { x: origin.x + k, y: origin.y })
            } else {
                None
            }
        },
        MoveDirection::SouthEast => {
            if origin.y + k < 8 && origin.x + k < 8 {
                Some(Coordinates { x: origin.x + k, y: origin.y + k })
            } else {
                None
            }
        },
        MoveDirection::South => {
            if origin.y + k < 8 {
                Some(Coordinates { x: origin.x, y: origin.y + k })
            } else {
                None
            }
        },
        MoveDirection::SouthWest => {
            if origin.y + k < 8 && origin.x >= k {
                Some(Coordinates { x: origin.x - k, y: origin.y + k })
            } else {
                None
            }
        },
        MoveDirection::West => {
            if origin.x >= k {
                Some(Coordinates { x: origin.x - k, y: origin.y })
            } else {
                None
            }
        },
        MoveDirection::NorthWest => {
            if origin.y >= k && origin.x >= k {
                Some(Coordinates { x: origin.x - k, y: origin.y - k })
            } else {
                None
            }
        },
    }
}

/// Sliding move generation: walk each requested compass direction outward
/// from the origin, keeping empty squares, keeping the first enemy square and
/// stopping there, and stopping short of the first friendly square.
///
/// A move is produced exactly when its destination is reachable from the
/// origin in one of the requested directions; within one direction the
/// produced moves come in order of increasing distance.
pub fn piece_specific_moves(
    directions: Vec<MoveDirection>,
    origin: Coordinates,
    board: &Board,
) -> (r: MoveList)
    requires
        board_wf(board@),
        coord_wf(origin),
    ensures
        forall|m: Move| #[trigger]
            r@.contains(m) <==> (m.0 == origin && exists|di: int|
                0 <= di < directions@.len() && reachable_in_dir(
                    board@,
                    origin,
                    directions@[di],
                    m.1,
                )),
{
    let mut r: MoveList = Vec::new();
    let mut di: usize = 0;
    while di < directions.len()
        invariant
            di <= directions@.len(),
            board_wf(board@),
            coord_wf(origin),
            forall|m: Move| #[trigger]
                r@.contains(m) <==> (m.0 == origin && exists|dj: int|
                    0 <= dj < di && reachable_in_dir(board@, origin, directions@[dj], m.1)),
        decreases directions@.len() - di,
    {
        let direction = directions[di];
        let ghost prev = r@;
        let mut k: usize = 1;
        loop
            invariant_except_break
                1 <= k <= 8,
                board_wf(board@),
                coord_wf(origin),
                forall|j: int|
                    #![trigger ray_sq(origin, direction, j)]
                    1 <= j < k ==> ray_on_board(origin, direction, j) && board@.colours[ray_sq(
                        origin,
                        direction,
                        j,
                    )] == PieceColour::Empty,
                forall|m: Move| #[trigger]
                    r@.contains(m) <==> (prev.contains(m) || (m.0 == origin && reachable_in_dir(
                        board@,
                        origin,
                        direction,
                        m.1,
                    ) && move_dist(m) < k)),
            ensures
                forall|m: Move| #[trigger]
                    r@.contains(m) <==> (prev.contains(m) || (m.0 == origin && reachable_in_dir(
                        board@,
                        origin,
                        direction,
                        m.1,
                    ))),
            decreases 8 - k,
        {
            if k == 8 {
                proof {
                    assert forall|m: Move|
                        m.0 == origin && reachable_in_dir(
                            board@,
                            origin,
                            direction,
                            m.1,
                        ) implies move_dist(m) < 8 by {}
                }
                break;
            }
            match dir_step(origin, &direction, k) {
                None => {
                    proof {
                        assert forall|m: Move|
                            m.0 == origin && reachable_in_dir(
                                board@,
                                origin,
                                direction,
                                m.1,
                            ) implies move_dist(m) < k by {
                            let dist = move_dist(m);
                            assert(ray_on_board(origin, direction, dist));
                            if dist >= k {
                                lemma_ray_monotone(origin, direction, k as int, dist);
                            }
                        }
                    }
                    break;
                },
                Some(d) => {
                    let dcol = board.colours[d.to_index()];
                    let ocol = board.colours[origin.to_index()];
                    if matches!(dcol, PieceColour::Empty) {
                        r.push((origin, d));
                        proof {
                            assert(reachable_in_dir(board@, origin, direction, d));
                            assert forall|m: Move|
                                m.0 == origin && reachable_in_dir(board@, origin, direction, m.1)
                                    && move_dist(m) < k + 1 implies #[trigger] r@.contains(m) by {
                                if move_dist(m) == k {
                                    assert(m.1 == d);
                                    assert(m == (origin, d));
                                }
                            }
                        }
                        k += 1;
                    } else if dcol == ocol {
                        proof {
                            assert forall|m: Move|
                                m.0 == origin && reachable_in_dir(
                                    board@,
                                    origin,
                                    direction,
                                    m.1,
                                ) implies move_dist(m) < k by {
                                let dist = move_dist(m);
                                if dist == k {
                                    assert(m.1 == d);
                                } else if dist > k {
                                    assert(board@.colours[ray_sq(origin, direction, k as int)]
                                        == PieceColour::Empty);
                                }
                            }
                        }
                        break;
                    } else {
                        r.push((origin, d));
                        proof {
                            assert(reachable_in_dir(board@, origin, direction, d));
                            assert forall|m: Move|
                                m.0 == origin && reachable_in_dir(
                                    board@,
                                    origin,
                                    direction,
                                    m.1,
                                ) implies #[trigger] r@.contains(m) by {
                                let dist = move_dist(m);
                                if dist == k {
                                    assert(m.1 == d);
                                    assert(m == (origin, d));
                                } else if dist > k {
                                    assert(board@.colours[ray_sq(origin, direction, k as int)]
                                        == PieceColour::Empty);
                                }
                            }
                        }
                        break;
                    }
                },
            }
        }
        proof {
            assert forall|m: Move| #[trigger] r@.contains(m) implies (m.0 == origin && exists|
                dj: int,
            |
                0 <= dj < di + 1 && reachable_in_dir(board@, origin, directions@[dj], m.1)) by {
                if prev.contains(m) {
                    let dj = choose|dj: int|
                        0 <= dj < di && reachable_in_dir(board@, origin, directions@[dj], m.1);
                    assert(reachable_in_dir(board@, origin, directions@[dj], m.1));
                } else {
                    assert(directions@[di as int] == direction);
                    assert(reachable_in_dir(board@, origin, directions@[di as int], m.1));
                }
            }
            assert forall|m: Move|
                (m.0 == origin && exists|dj: int|
                    0 <= dj < di + 1 && reachable_in_dir(
                        board@,
                        origin,
                        directions@[dj],
                        m.1,
                    )) implies #[trigger] r@.contains(m) by {
                let dj = choose|dj: int|
                    0 <= dj < di + 1 && reachable_in_dir(board@, origin, directions@[dj], m.1);
                if dj == di {
                    assert(reachable_in_dir(board@, origin, direction, m.1));
                } else {
                    assert(prev.contains(m));
                }
            }
        }
        di += 1;
    }
    r
}

/// `d` is reachable from `o` along a rank or file.
pub open spec fn lateral_reachable(v: BoardView, o: Coordinates, d: Coordinates) -> bool {
    ||| reachable_in_dir(v, o, MoveDirection::North, d)
    ||| reachable_in_dir(v, o, MoveDirection::East, d)
    ||| reachable_in_dir(v, o, MoveDirection::South, d)
    ||| reachable_in_dir(v, o, MoveDirection::West, d)
}

/// `d` is reachable from `o` along a diagonal.
pub open spec fn diagonal_reachable(v: BoardView, o: Coordinates, d: Coordinates) -> bool {
    ||| reachable_in_dir(v, o, MoveDirection::NorthEast, d)
    ||| reachable_in_dir(v, o, MoveDirection::SouthEast, d)
    ||| reachable_in_dir(v, o, MoveDirection::SouthWest, d)
    ||| reachable_in_dir(v, o, MoveDirection::NorthWest, d)
}

/// Rook moves.
#[derive(Debug, Clone)]
pub struct Rook {}

impl Rook {
    /// All pseudo-legal rook moves from `origin`: every destination reachable
    /// along the origin's rank or file.
    pub fn get_valid_moves(board: &Board, origin: Coordinates) -> (r: MoveList)
        requires
            board_wf(board@),
            coord_wf(origin),
        ensures
            forall|m: Move| #[trigger]
                r@.contains(m) <==> (m.0 == origin && lateral_reachable(board@, origin, m.1)),
    {
        let mut directions: Vec<MoveDirection> = Vec::new();
        directions.push(MoveDirection::North);
        directions.push(MoveDirection::East);
        directions.push(MoveDirection::South);
        directions.push(MoveDirection::West);
        let ghost ds = directions@;
        let r = piece_specific_moves(directions, origin, board);
        proof {
            assert(ds.len() == 4 && ds[0] == MoveDirection::North && ds[1] == MoveDirection::East
                && ds[2] == MoveDirection::South && ds[3] == MoveDirection::West);
            assert forall|m: Move| #[trigger]
                r@.contains(m) <==> (m.0 == origin && lateral_reachable(board@, origin, m.1)) by {
                lemma_four_dirs(board@, origin, m, r@, ds);
            }
        }
        r
    }
}

/// Bishop moves.
#[derive(Debug, Clone)]
pub struct Bishop {}

impl Bishop {
    /// All pseudo-legal bishop moves from `origin`: every destination
    /// reachable along the origin's diagonals.
    pub fn get_valid_moves(board: &Board, origin: Coordinates) -> (r: MoveList)
        requires
            board_wf(board@),
            coord_wf(origin),
        ensures
            forall|m: Move| #[trigger]
                r@.contains(m) <==> (m.0 == origin && diagonal_reachable(board@, origin, m.1)),
    {
        let mut directions: Vec<MoveDirection> = Vec::new();
        directions.push(MoveDirection::NorthEast);
        directions.push(MoveDirection::SouthEast);
        directions.push(MoveDirection::SouthWest);
        directions.push(MoveDirection::NorthWest);
        let ghost ds = directions@;
        let r = piece_specific_moves(directions, origin, board);
        proof {
            assert(ds.len() == 4 && ds[0] == MoveDirection::NorthEast && ds[1]
                == MoveDirection::SouthEast && ds[2] == MoveDirection::SouthWest && ds[3]
                == MoveDirection::NorthWest);
            assert forall|m: Move| #[trigger]
                r@.contains(m) <==> (m.0 == origin && diagonal_reachable(board@, origin, m.1)) by {
                lemma_four_dirs(board@, origin, m, r@, ds);
            }
        }
        r
    }
}

/// Helper for the four-direction sliders: membership in the produced list is
/// the disjunction of reachability over the four given directions.
proof fn lemma_four_dirs(
    v: BoardView,
    origin: Coordinates,
    m: Move,
    r: Seq<Move>,
    ds: Seq<MoveDirection>,
)
    requires
        ds.len() == 4,
        forall|n: Move| #[trigger]
            r.contains(n) <==> (n.0 == origin && exists|di: int|
                0 <= di < ds.len() && reachable_in_dir(v, origin, ds[di], n.1)),
    ensures
        r.contains(m) <==> (m.0 == origin && (reachable_in_dir(v, origin, ds[0], m.1)
            || reachable_in_dir(v, origin, ds[1], m.1) || reachable_in_dir(v, origin, ds[2], m.1)
            || reachable_in_dir(v, origin, ds[3], m.1))),
{
    if r.contains(m) {
        let di = choose|di: int| 0 <= di < 4 && reachable_in_dir(v, origin, ds[di], m.1);
        assert(di == 0 || di == 1 || di == 2 || di == 3);
    }
}

/// Queen moves.
#[derive(Debug, Clone)]
pub struct Queen {}

impl Queen {
    /// All pseudo-legal queen moves from `origin`: every destination
    /// reachable along the origin's rank, file or diagonals.
    pub fn get_valid_moves(board: &Board, origin: Coordinates) -> (r: MoveList)
        requires
            board_wf(board@),
            coord_wf(origin),
        ensures
            forall|m: Move| #[trigger]
                r@.contains(m) <==> (m.0 == origin && (lateral_reachable(board@, origin, m.1)
                    || diagonal_reachable(board@, origin, m.1))),
    {
        let mut lateral = Rook::get_valid_moves(board, origin);
        let mut diagonal = Bishop::get_valid_moves(board, origin);
        let mut r: MoveList = Vec::new();
        r.append(&mut lateral);
        r.append(&mut diagonal);
        r
    }
}

/// File offset of the `j`-th knight jump.
pub open spec fn knight_dx(j: int) -> int {
    if j == 0 || j == 6 {
        -1
    } else if j == 1 || j == 7 {
        1
    } else if j == 2 || j == 4 {
        -2
    } else {
        2
    }
}

/// Rank offset of the `j`-th knight jump.
pub open spec fn knight_dy(j: int) -> int {
    if j == 0 || j == 1 {
        -2
    } else if j == 2 || j == 3 {
        -1
    } else if j == 4 || j == 5 {
        1
    } else {
        2
    }
}

/// `d` is a knight jump away from `o` and does not hold a piece of the
/// origin's colour.
pub open spec fn knight_dest(v: BoardView, o: Coordinates, d: Coordinates) -> bool {
    let dx = abs_int(d.x as int - o.x as int);
    let dy = abs_int(d.y as int - o.y as int);
    &&& coord_wf(d)
    &&& ((dx == 1 && dy == 2) || (dx == 2 && dy == 1))
    &&& colour_at(v, d) != colour_at(v, o)
}

/// `d` sits at the given offset from `o`, on the board, and does not hold a
/// piece of the origin's colour.
pub open spec fn offset_dest(v: BoardView, o: Coordinates, d: Coordinates, dx: int, dy: int) -> bool {
    &&& coord_wf(d)
    &&& d.x as int == o.x + dx
    &&& d.y as int == o.y + dy
    &&& colour_at(v, d) != colour_at(v, o)
}

/// The square at offset `(dx, dy)` from `o` lies on the board.
pub open spec fn offset_on_board(o: Coordinates, dx: int, dy: int) -> bool {
    0 <= o.x + dx < 8 && 0 <= o.y + dy < 8
}

/// The square at the given offset from `origin`, if it lies on the board.
fn offset_candidate(origin: Coordinates, dx: i8, dy: i8) -> (r: Option<Coordinates>)
    requires
        coord_wf(origin),
        -2 <= dx as int <= 2,
        -2 <= dy as int <= 2,
    ensures
        match r {
            Some(d) => coord_wf(d) && d.x as int == origin.x + dx as int && d.y as int == origin.y
                + dy as int,
            None => !offset_on_board(origin, dx as int, dy as int),
        },
{
    let nx = origin.x as i16 + dx as i16;
    let ny = origin.y as i16 + dy as i16;
    if 0 <= nx && nx < 8 && 0 <= ny && ny < 8 {
        Some(Coordinates { x: nx as usize, y: ny as usize })
    } else {
        None
    }
}

/// The `j`-th knight jump offset.
fn knight_offset(j: usize) -> (r: (i8, i8))
    requires
        j < 8,
    ensures
        r.0 as int == knight_dx(j as int),
        r.1 as int == knight_dy(j as int),
{
    if j == 0 {
        (-1, -2)
    } else if j == 1 {
        (1, -2)
    } else if j == 2 {
        (-2, -1)
    } else if j == 3 {
        (2, -1)
    } else if j == 4 {
        (-2, 1)
    } else if j == 5 {
        (2, 1)
    } else if j == 6 {
        (-1, 2)
    } else {
        (1, 2)
    }
}

/// Knight moves.
#[derive(Debug, Clone)]
pub struct Knight {}

impl Knight {
    /// All pseudo-legal knight moves from `origin`: the eight fixed jumps,
    /// minus those leaving the board or landing on the origin's own colour.
    pub fn get_valid_moves(board: &Board, origin: Coordinates) -> (r: MoveList)
        requires
            board_wf(board@),
            coord_wf(origin),
        ensures
            forall|m: Move| #[trigger]
                r@.contains(m) <==> (m.0 == origin && knight_dest(board@, origin, m.1)),
    {
        let mut r: MoveList = Vec::new();
        let ocol = board.colours[origin.to_index()];
        let mut j: usize = 0;
        while j < 8
            invariant
                j <= 8,
                board_wf(board@),
                coord_wf(origin),
                ocol == colour_at(board@, origin),
                forall|m: Move| #[trigger]
                    r@.contains(m) <==> (m.0 == origin && exists|i: int|
                        0 <= i < j && offset_dest(
                            board@,
                            origin,
                            m.1,
                            knight_dx(i),
                            knight_dy(i),
                        )),
            decreases 8 - j,
        {
            let (dx, dy) = knight_offset(j);
            match offset_candidate(origin, dx, dy) {
                Some(d) => {
                    let dcol = board.colours[d.to_index()];
                    if !(dcol == ocol) {
                        r.push((origin, d));
                    }
                },
                None => {},
            }
            proof {
                assert forall|m: Move| #[trigger] r@.contains(m) implies (m.0 == origin && exists|
                    i: int,
                |
                    0 <= i < j + 1 && offset_dest(board@, origin, m.1, knight_dx(i), knight_dy(i)))
                    by {
                    if !(m.0 == origin && exists|i: int|
                        0 <= i < j && offset_dest(
                            board@,
                            origin,
                            m.1,
                            knight_dx(i),
                            knight_dy(i),
                        )) {
                        assert(offset_dest(
                            board@,
                            origin,
                            m.1,
                            knight_dx(j as int),
                            knight_dy(j as int),
                        ));
                    }
                }
                assert forall|m: Move|
                    (m.0 == origin && exists|i: int|
                        0 <= i < j + 1 && offset_dest(
                            board@,
                            origin,
                            m.1,
                            knight_dx(i),
                            knight_dy(i),
                        )) implies #[trigger] r@.contains(m) by {
                    let i = choose|i: int|
                        0 <= i < j + 1 && offset_dest(
                            board@,
                            origin,
                            m.1,
                            knight_dx(i),
                            knight_dy(i),
                        );
                    if i == j {
                        assert(0 <= origin.x + knight_dx(i) < 8);
                        assert(0 <= origin.y + knight_dy(i) < 8);
                    }
                }
            }
            j += 1;
        }
        proof {
            assert forall|m: Move| #[trigger]
                r@.contains(m) <==> (m.0 == origin && knight_dest(board@, origin, m.1)) by {
                lemma_knight_offsets(board@, origin, m, r@);
            }
        }
        r
    }
}

/// A destination is a knight destination exactly when it sits at one of the
/// eight knight jump offsets and may be landed on.
proof fn lemma_knight_offsets(v: BoardView, origin: Coordinates, m: Move, r: Seq<Move>)
    requires
        forall|n: Move| #[trigger]
            r.contains(n) <==> (n.0 == origin && exists|i: int|
                0 <= i < 8 && offset_dest(v, origin, n.1, knight_dx(i), knight_dy(i))),
    ensures
        r.contains(m) <==> (m.0 == origin && knight_dest(v, origin, m.1)),
{
    if r.contains(m) {
        let i = choose|i: int|
            0 <= i < 8 && offset_dest(v, origin, m.1, knight_dx(i), knight_dy(i));
        assert(knight_dest(v, origin, m.1));
    }
    if m.0 == origin && knight_dest(v, origin, m.1) {
        let d = m.1;
        let dx = d.x as int - origin.x as int;
        let dy = d.y as int - origin.y as int;
        if dx == -1 && dy == -2 {
            assert(offset_dest(v, origin, d, knight_dx(0), knight_dy(0)));
        } else if dx == 1 && dy == -2 {
            assert(offset_dest(v, origin, d, knight_dx(1), knight_dy(1)));
        } else if dx == -2 && dy == -1 {
            assert(offset_dest(v, origin, d, knight_dx(2), knight_dy(2)));
        } else if dx == 2 && dy == -1 {
            assert(offset_dest(v, origin, d, knight_dx(3), knight_dy(3)));
        } else if dx == -2 && dy == 1 {
            assert(offset_dest(v, origin, d, knight_dx(4), knight_dy(4)));
        } else if dx == 2 && dy == 1 {
            assert(offset_dest(v, origin, d, knight_dx(5), knight_dy(5)));
        } else if dx == -1 && dy == 2 {
            assert(offset_dest(v, origin, d, knight_dx(6), knight_dy(6)));
        } else {
            assert(dx == 1 && dy == 2);
            assert(offset_dest(v, origin, d, knight_dx(7), knight_dy(7)));
        }
    }
}

/// `d` is one king step from `o` — adjacent in any of the eight directions —
/// and is empty or holds an enemy piece.
pub open spec fn king_dest(v: BoardView, o: Coordinates, d: Coordinates) -> bool {
    &&& coord_wf(d)
    &&& move_dist((o, d)) == 1
    &&& dest_free_or_enemy(v, o, d)
}

/// The `j`-th compass direction.
pub open spec fn compass(j: int) -> MoveDirection {
    if j == 0 {
        MoveDirection::North
    } else if j == 1 {
        MoveDirection::NorthEast
    } else if j == 2 {
        MoveDirection::East
    } else if j == 3 {
        MoveDirection::SouthEast
    } else if j == 4 {
        MoveDirection::South
    } else if j == 5 {
        MoveDirection::SouthWest
    } else if j == 6 {
        MoveDirection::West
    } else {
        MoveDirection::NorthWest
    }
}

/// Exec mirror of `compass`.
fn compass_direction(j: usize) -> (r: MoveDirection)
    requires
        j < 8,
    ensures
        r == compass(j as int),
{
    if j == 0 {
        MoveDirection::North
    } else if j == 1 {
        MoveDirection::NorthEast
    } else if j == 2 {
        MoveDirection::East
    } else if j == 3 {
        MoveDirection::SouthEast
    } else if j == 4 {
        MoveDirection::South
    } else if j == 5 {
        MoveDirection::SouthWest
    } else if j == 6 {
        MoveDirection::West
    } else {
        MoveDirection::NorthWest
    }
}

/// King moves (castling is handled by the special-move layer, and exposure to
/// check by the legality filter).
#[derive(Debug, Clone)]
pub struct King {}

impl King {
    /// All pseudo-legal king moves from `origin`: one step in each compass
    /// direction, truncated at the board edge and at the king's own colour.
    pub fn get_valid_moves(board: &Board, origin: Coordinates) -> (r: MoveList)
        requires
            board_wf(board@),
            coord_wf(origin),
        ensures
            forall|m: Move| #[trigger]
                r@.contains(m) <==> (m.0 == origin && king_dest(board@, origin, m.1)),
    {
        let mut r: MoveList = Vec::new();
        let ocol = board.colours[origin.to_index()];
        let mut j: usize = 0;
        while j < 8
            invariant
                j <= 8,
                board_wf(board@),
                coord_wf(origin),
                ocol == colour_at(board@, origin),
                forall|m: Move| #[trigger]
                    r@.contains(m) <==> (m.0 == origin && exists|i: int|
                        0 <= i < j && coord_wf(m.1) && at_ray(origin, compass(i), 1, m.1)
                            && dest_free_or_enemy(board@, origin, m.1)),
            decreases 8 - j,
        {
            let direction = compass_direction(j);
            match dir_step(origin, &direction, 1) {
                Some(d) => {
                    let dcol = board.colours[d.to_index()];
                    if matches!(dcol, PieceColour::Empty) || !(dcol == ocol) {
                        r.push((origin, d));
                    }
                },
                None => {},
            }
            proof {
                assert forall|m: Move| #[trigger] r@.contains(m) implies (m.0 == origin && exists|
                    i: int,
                |
                    0 <= i < j + 1 && coord_wf(m.1) && at_ray(origin, compass(i), 1, m.1)
                        && dest_free_or_enemy(board@, origin, m.1)) by {
                    if !(m.0 == origin && exists|i: int|
                        0 <= i < j && coord_wf(m.1) && at_ray(origin, compass(i), 1, m.1)
                            && dest_free_or_enemy(board@, origin, m.1)) {
                        assert(at_ray(origin, compass(j as int), 1, m.1));
                    }
                }
                assert forall|m: Move|
                    (m.0 == origin && exists|i: int|
                        0 <= i < j + 1 && coord_wf(m.1) && at_ray(origin, compass(i), 1, m.1)
                            && dest_free_or_enemy(board@, origin, m.1)) implies #[trigger]
                    r@.contains(m) by {
                    let i = choose|i: int|
                        0 <= i < j + 1 && coord_wf(m.1) && at_ray(origin, compass(i), 1, m.1)
                            && dest_free_or_enemy(board@, origin, m.1);
                    if i == j {
                        assert(ray_on_board(origin, compass(i), 1));
                    }
                }
            }
            j += 1;
        }
        proof {
            assert forall|m: Move| #[trigger]
                r@.contains(m) <==> (m.0 == origin && king_dest(board@, origin, m.1)) by {
                lemma_king_steps(board@, origin, m, r@);
            }
        }
        r
    }
}

/// A destination is a king destination exactly when it is one step away in
/// one of the eight compass directions.
proof fn lemma_king_steps(v: BoardView, origin: Coordinates, m: Move, r: Seq<Move>)
    requires
        coord_wf(origin),
        forall|n: Move| #[trigger]
            r.contains(n) <==> (n.0 == origin && exists|i: int|
                0 <= i < 8 && coord_wf(n.1) && at_ray(origin, compass(i), 1, n.1)
                    && dest_free_or_enemy(v, origin, n.1)),
    ensures
        r.contains(m) <==> (m.0 == origin && king_dest(v, origin, m.1)),
{
    if r.contains(m) {
        let i = choose|i: int|
            0 <= i < 8 && coord_wf(m.1) && at_ray(origin, compass(i), 1, m.1)
                && dest_free_or_enemy(v, origin, m.1);
        assert(king_dest(v, origin, m.1));
    }
    if m.0 == origin && king_dest(v, origin, m.1) {
        let d = m.1;
        let dx = d.x as int - origin.x as int;
        let dy = d.y as int - origin.y as int;
        if dx == 0 && dy == -1 {
            assert(at_ray(origin, compass(0), 1, d));
        } else if dx == 1 && dy == -1 {
            assert(at_ray(origin, compass(1), 1, d));
        } else if dx == 1 && dy == 0 {
            assert(at_ray(origin, compass(2), 1, d));
        } else if dx == 1 && dy == 1 {
            assert(at_ray(origin, compass(3), 1, d));
        } else if dx == 0 && dy == 1 {
            assert(at_ray(origin, compass(4), 1, d));
        } else if dx == -1 && dy == 1 {
            assert(at_ray(origin, compass(5), 1, d));
        } else if dx == -1 && dy == 0 {
            assert(at_ray(origin, compass(6), 1, d));
        } else {
            assert(dx == -1 && dy == -1);
            assert(at_ray(origin, compass(7), 1, d));
        }
    }
}

/// A direction-matching move between lateral or diagonal endpoints lies on
/// the direction's ray, at its Chebyshev distance.
proof fn lemma_shape_at_ray(dir: MoveDirection, o: Coordinates, d: Coordinates)
    requires
        coord_wf(o),
        coord_wf(d),
        dir_matches(dir, (o, d)),
        lateral_shape(o, d) || diagonal_shape(o, d),
    ensures
        at_ray(o, dir, move_dist((o, d)), d),
        1 <= move_dist((o, d)) <= 7,
{
    match dir {
        MoveDirection::North => assert(at_ray(o, dir, move_dist((o, d)), d)),
        MoveDirection::NorthEast => assert(at_ray(o, dir, move_dist((o, d)), d)),
        MoveDirection::East => assert(at_ray(o, dir, move_dist((o, d)), d)),
        MoveDirection::SouthEast => assert(at_ray(o, dir, move_dist((o, d)), d)),
        MoveDirection::South => assert(at_ray(o, dir, move_dist((o, d)), d)),
        MoveDirection::SouthWest => assert(at_ray(o, dir, move_dist((o, d)), d)),
        MoveDirection::West => assert(at_ray(o, dir, move_dist((o, d)), d)),
        MoveDirection::NorthWest => assert(at_ray(o, dir, move_dist((o, d)), d)),
    }
}

/// A positive-distance ray point makes a move that matches its direction.
proof fn lemma_at_ray_matches(dir: MoveDirection, o: Coordinates, k: int, d: Coordinates)
    requires
        coord_wf(o),
        coord_wf(d),
        at_ray(o, dir, k, d),
        1 <= k,
    ensures
        dir_matches(dir, (o, d)),
{
    match dir {
        MoveDirection::North => assert(dir_matches(dir, (o, d))),
        MoveDirection::NorthEast => assert(dir_matches(dir, (o, d))),
        MoveDirection::East => assert(dir_matches(dir, (o, d))),
        MoveDirection::SouthEast => assert(dir_matches(dir, (o, d))),
        MoveDirection::South => assert(dir_matches(dir, (o, d))),
        MoveDirection::SouthWest => assert(dir_matches(dir, (o, d))),
        MoveDirection::West => assert(dir_matches(dir, (o, d))),
        MoveDirection::NorthWest => assert(dir_matches(dir, (o, d))),
    }
}

/// Partition helper: of a per-piece move list (one origin, lateral or
/// diagonal destinations), the moves pointing into `direction`, ordered by
/// increasing distance from the origin.
pub fn separate_direction_from_movelist(list: &MoveList, direction: MoveDirection) -> (r: MoveList)
    requires
        forall|i: int|
            0 <= i < list@.len() ==> coord_wf((#[trigger] list@[i]).0) && coord_wf(list@[i].1)
                && list@[i].0 == list@[0].0 && (lateral_shape(list@[i].0, list@[i].1)
                || diagonal_shape(list@[i].0, list@[i].1)),
    ensures
        forall|m: Move| #[trigger]
            r@.contains(m) <==> (list@.contains(m) && dir_matches(direction, m)),
        forall|i: int, j: int| 0 <= i < j < r@.len() ==> move_dist(r@[i]) < move_dist(r@[j]),
{
    let mut r: MoveList = Vec::new();
    if list.len() == 0 {
        return r;
    }
    let origin = list[0].0;
    let mut k: usize = 1;
    while k < 8
        invariant
            1 <= k <= 8,
            list@.len() > 0,
            origin == list@[0].0,
            coord_wf(origin),
            forall|i: int|
                0 <= i < list@.len() ==> coord_wf((#[trigger] list@[i]).0) && coord_wf(list@[i].1)
                    && list@[i].0 == list@[0].0 && (lateral_shape(list@[i].0, list@[i].1)
                    || diagonal_shape(list@[i].0, list@[i].1)),
            forall|m: Move| #[trigger]
                r@.contains(m) <==> (list@.contains(m) && dir_matches(direction, m) && move_dist(m)
                    < k),
            forall|i: int| 0 <= i < r@.len() ==> move_dist(#[trigger] r@[i]) < k,
            forall|i: int, j: int| 0 <= i < j < r@.len() ==> move_dist(r@[i]) < move_dist(r@[j]),
        decreases 8 - k,
    {
        match dir_step(origin, &direction, k) {
            Some(d) => {
                if contains_move(list, &(origin, d)) {
                    r.push((origin, d));
                    proof {
                        lemma_at_ray_matches(direction, origin, k as int, d);
                    }
                }
            },
            None => {},
        }
        proof {
            assert forall|m: Move|
                list@.contains(m) && dir_matches(direction, m) && move_dist(m)
                    < k + 1 implies #[trigger] r@.contains(m) by {
                if move_dist(m) == k {
                    let i = choose|i: int| 0 <= i < list@.len() && list@[i] == m;
                    assert(m.0 == origin);
                    lemma_shape_at_ray(direction, m.0, m.1);
                    assert(ray_on_board(origin, direction, k as int));
                }
            }
        }
        k += 1;
    }
    proof {
        assert forall|m: Move|
            list@.contains(m) && dir_matches(direction, m) implies #[trigger] r@.contains(m) by {
            let i = choose|i: int| 0 <= i < list@.len() && list@[i] == m;
            lemma_shape_at_ray(direction, m.0, m.1);
        }
    }
    r
}

/// Every move of `s` before position `n` has an empty destination.
pub open spec fn prefix_empty(v: BoardView, s: Seq<Move>, n: int) -> bool {
    forall|j: int| 0 <= j < n ==> colour_at(v, (#[trigger] s[j]).1) == PieceColour::Empty
}

/// The move's destination holds a piece of the move's own colour.
pub open spec fn friendly_dest(v: BoardView, m: Move) -> bool {
    colour_at(v, m.1) != PieceColour::Empty && colour_at(v, m.1) == colour_at(v, m.0)
}

/// Truncate a directional move list (ordered by increasing distance) at its
/// first collision: keep moves onto empty squares, keep the first move onto
/// an enemy square and stop there, stop short of a friendly square.
pub fn slice_valid_moves_at_collision(list: MoveList, board: &Board) -> (r: MoveList)
    requires
        board_wf(board@),
        forall|i: int|
            0 <= i < list@.len() ==> coord_wf((#[trigger] list@[i]).0) && coord_wf(list@[i].1),
    ensures
        r@.len() <= list@.len(),
        forall|i: int| 0 <= i < r@.len() ==> r@[i] == list@[i],
        forall|i: int| 0 <= i < r@.len() ==> !friendly_dest(board@, #[trigger] r@[i]),
        forall|i: int|
            0 <= i < r@.len() - 1 ==> colour_at(board@, (#[trigger] r@[i]).1)
                == PieceColour::Empty,
        forall|n: int|
            0 <= n < list@.len() && prefix_empty(board@, list@, n) && !friendly_dest(
                board@,
                #[trigger] list@[n],
            ) ==> n < r@.len(),
{
    let ghost v = board@;
    let mut r: MoveList = Vec::new();
    let mut index: usize = 0;
    loop
        invariant_except_break
            index <= list@.len(),
            board_wf(v),
            v == board@,
            forall|i: int|
                0 <= i < list@.len() ==> coord_wf((#[trigger] list@[i]).0) && coord_wf(
                    list@[i].1,
                ),
            r@ == list@.take(index as int),
            prefix_empty(v, list@, index as int),
        ensures
            r@.len() <= list@.len(),
            forall|i: int| 0 <= i < r@.len() ==> r@[i] == list@[i],
            forall|i: int| 0 <= i < r@.len() ==> !friendly_dest(v, #[trigger] r@[i]),
            forall|i: int|
                0 <= i < r@.len() - 1 ==> colour_at(v, (#[trigger] r@[i]).1) == PieceColour::Empty,
            forall|n: int|
                0 <= n < list@.len() && prefix_empty(v, list@, n) && !friendly_dest(
                    v,
                    #[trigger] list@[n],
                ) ==> n < r@.len(),
        decreases list@.len() - index,
    {
        if index == list.len() {
            proof {
                assert(r@ =~= list@);
            }
            break;
        }
        let square = list[index];
        let (occupied, same_colour) = is_square_occupied(square, board);
        proof {
            assert(list@.take(index + 1) =~= list@.take(index as int).push(list@[index as int]));
        }
        if occupied && same_colour {
            proof {
                assert forall|n: int|
                    0 <= n < list@.len() && prefix_empty(v, list@, n) && !friendly_dest(
                        v,
                        #[trigger] list@[n],
                    ) implies n < r@.len() by {
                    if n >= index {
                        if n == index {
                            assert(friendly_dest(v, list@[n]));
                        } else {
                            assert(colour_at(v, list@[index as int].1) == PieceColour::Empty);
                        }
                    }
                }
            }
            break;
        } else if occupied {
            r.push(square);
            proof {
                assert forall|n: int|
                    0 <= n < list@.len() && prefix_empty(v, list@, n) && !friendly_dest(
                        v,
                        #[trigger] list@[n],
                    ) implies n < r@.len() by {
                    if n > index {
                        assert(colour_at(v, list@[index as int].1) == PieceColour::Empty);
                    }
                }
            }
            break;
        } else {
            r.push(square);
        }
        index += 1;
    }
    r
}

/// Every move of `s` before position `n` captures an enemy piece.
pub open spec fn prefix_enemy(v: BoardView, s: Seq<Move>, n: int) -> bool {
    forall|j: int|
        0 <= j < n ==> colour_at(v, (#[trigger] s[j]).1) != PieceColour::Empty && colour_at(
            v,
            s[j].1,
        ) != colour_at(v, s[j].0)
}

/// The move captures an enemy piece on its destination.
pub open spec fn enemy_dest(v: BoardView, m: Move) -> bool {
    colour_at(v, m.1) != PieceColour::Empty && colour_at(v, m.1) != colour_at(v, m.0)
}

impl Pawn {
    /// Pawn blocking: a pawn's forward (vertical) candidates are cut at the
    /// first occupied square, exclusively — a pawn never captures forward;
    /// its diagonal candidates are kept only while they capture an enemy
    /// piece.
    pub fn pawn_collision(moves: MoveList, direction: MoveDirection, board: &Board) -> (r: MoveList)
    requires
        board_wf(board@),
        direction != MoveDirection::East,
        direction != MoveDirection::West,
        forall|i: int|
            0 <= i < moves@.len() ==> coord_wf((#[trigger] moves@[i]).0) && coord_wf(moves@[i].1),
    ensures
        r@.len() <= moves@.len(),
        forall|i: int| 0 <= i < r@.len() ==> r@[i] == moves@[i],
        (direction == MoveDirection::North || direction == MoveDirection::South) ==> {
            &&& forall|i: int|
                0 <= i < r@.len() ==> colour_at(board@, (#[trigger] r@[i]).1)
                    == PieceColour::Empty
            &&& (r@.len() == moves@.len() || colour_at(board@, moves@[r@.len() as int].1)
                != PieceColour::Empty)
        },
        (direction != MoveDirection::North && direction != MoveDirection::South) ==> {
            &&& forall|i: int| 0 <= i < r@.len() ==> enemy_dest(board@, #[trigger] r@[i])
            &&& (r@.len() == moves@.len() || !enemy_dest(board@, moves@[r@.len() as int]))
        },
{
    let ghost v = board@;
    let vertical = matches!(direction, MoveDirection::North) || matches!(
        direction,
        MoveDirection::South,
    );
    let mut r: MoveList = Vec::new();
    let mut index: usize = 0;
    loop
        invariant_except_break
            index <= moves@.len(),
            board_wf(v),
            v == board@,
            forall|i: int|
                0 <= i < moves@.len() ==> coord_wf((#[trigger] moves@[i]).0) && coord_wf(
                    moves@[i].1,
                ),
            r@ == moves@.take(index as int),
            vertical == (direction == MoveDirection::North || direction == MoveDirection::South),
            vertical ==> prefix_empty(v, moves@, index as int),
            !vertical ==> prefix_enemy(v, moves@, index as int),
        ensures
            r@.len() <= moves@.len(),
            forall|i: int| 0 <= i < r@.len() ==> r@[i] == moves@[i],
            (direction == MoveDirection::North || direction == MoveDirection::South) ==> {
                &&& forall|i: int|
                    0 <= i < r@.len() ==> colour_at(v, (#[trigger] r@[i]).1) == PieceColour::Empty
                &&& (r@.len() == moves@.len() || colour_at(v, moves@[r@.len() as int].1)
                    != PieceColour::Empty)
            },
            (direction != MoveDirection::North && direction != MoveDirection::South) ==> {
                &&& forall|i: int| 0 <= i < r@.len() ==> enemy_dest(v, #[trigger] r@[i])
                &&& (r@.len() == moves@.len() || !enemy_dest(v, moves@[r@.len() as int]))
            },
        decreases moves@.len() - index,
    {
        if index == moves.len() {
            proof {
                assert(r@ =~= moves@);
            }
            break;
        }
        let element = moves[index];
        let (occupied, is_same_colour) = is_square_occupied(element, board);
        proof {
            assert(moves@.take(index + 1) =~= moves@.take(index as int).push(
                moves@[index as int],
            ));
        }
        if vertical {
            if occupied {
                break;
            }
            r.push(element);
        } else {
            if !occupied || is_same_colour {
                break;
            }
            r.push(element);
        }
        index += 1;
    }
    r
    }
}

/// Rank reached after `steps` forward steps of a pawn of colour `c` starting
/// from rank `y`. White pawns advance toward rank 7, black pawns toward 0.
pub open spec fn pawn_step_y(c: PieceColour, y: int, steps: int) -> int {
    if c == PieceColour::White {
        y + steps
    } else {
        y - steps
    }
}

/// Home rank of a pawn of colour `c`, from which the double step is allowed.
pub open spec fn pawn_home_rank(c: PieceColour) -> int {
    if c == PieceColour::White {
        1
    } else {
        6
    }
}

/// `d` is a pseudo-legal pawn destination from `o`: a single forward step
/// onto an empty square, a double step from the home rank across an empty
/// square onto an empty square, or a one-step forward-diagonal capture of an
/// enemy piece.
pub open spec fn pawn_dest(v: BoardView, o: Coordinates, d: Coordinates) -> bool {
    let c = colour_at(v, o);
    let one = pawn_step_y(c, o.y as int, 1);
    let two = pawn_step_y(c, o.y as int, 2);
    &&& coord_wf(d)
    &&& {
        ||| (d.x == o.x && d.y as int == one && colour_at(v, d) == PieceColour::Empty)
        ||| (d.x == o.x && o.y as int == pawn_home_rank(c) && d.y as int == two && v.colours[one * 8
            + o.x] == PieceColour::Empty && colour_at(v, d) == PieceColour::Empty)
        ||| (abs_int(d.x as int - o.x as int) == 1 && d.y as int == one && colour_at(v, d)
            != PieceColour::Empty && colour_at(v, d) != c)
    }
}

/// Pawn moves (promotion and en passant are handled by the special-move
/// layer, not here).
#[derive(Debug, Clone)]
pub struct Pawn {}

impl Pawn {
    /// All pseudo-legal pawn moves from `origin`.
    pub fn get_valid_moves(board: &Board, origin: Coordinates) -> (r: MoveList)
        requires
            board_wf(board@),
            coord_wf(origin),
            colour_at(board@, origin) != PieceColour::Empty,
        ensures
            forall|m: Move| #[trigger]
                r@.contains(m) <==> (m.0 == origin && pawn_dest(board@, origin, m.1)),
    {
        Pawn::pawn_specific_moves(origin, board)
    }

    /// All pseudo-legal pawn moves from `origin`: the colour's forward step
    /// (blocked entirely by any occupied square), the double step from the
    /// home rank, and the two forward-diagonal squares when they capture.
    pub fn pawn_specific_moves(origin: Coordinates, board: &Board) -> (r: MoveList)
        requires
            board_wf(board@),
            coord_wf(origin),
            colour_at(board@, origin) != PieceColour::Empty,
        ensures
            forall|m: Move| #[trigger]
                r@.contains(m) <==> (m.0 == origin && pawn_dest(board@, origin, m.1)),
    {
        let ghost v = board@;
        let mut r: MoveList = Vec::new();
        let c = board.colours[origin.to_index()];
        let white = matches!(c, PieceColour::White);
        let forward_in_range = if white {
            origin.y + 1 < 8
        } else {
            origin.y >= 1
        };
        if forward_in_range {
            let fy = if white {
                origin.y + 1
            } else {
                origin.y - 1
            };
            proof {
                assert(fy as int == pawn_step_y(c, origin.y as int, 1));
            }
            // forward step, and the double step behind it
            let f1 = Coordinates { x: origin.x, y: fy };
            if matches!(board.colours[f1.to_index()], PieceColour::Empty) {
                r.push((origin, f1));
                let home = if white {
                    origin.y == 1
                } else {
                    origin.y == 6
                };
                if home {
                    let fy2 = if white {
                        origin.y + 2
                    } else {
                        origin.y - 2
                    };
                    let f2 = Coordinates { x: origin.x, y: fy2 };
                    if matches!(board.colours[f2.to_index()], PieceColour::Empty) {
                        r.push((origin, f2));
                    }
                }
            }
            // diagonal captures
            if origin.x >= 1 {
                let dl = Coordinates { x: origin.x - 1, y: fy };
                let dlcol = board.colours[dl.to_index()];
                if !matches!(dlcol, PieceColour::Empty) && !(dlcol == c) {
                    r.push((origin, dl));
                }
            }
            if origin.x + 1 < 8 {
                let dr = Coordinates { x: origin.x + 1, y: fy };
                let drcol = board.colours[dr.to_index()];
                if !matches!(drcol, PieceColour::Empty) && !(drcol == c) {
                    r.push((origin, dr));
                }
            }
        }
        proof {
            assert forall|m: Move| #[trigger]
                r@.contains(m) <==> (m.0 == origin && pawn_dest(v, origin, m.1)) by {
                if m.0 == origin && pawn_dest(v, origin, m.1) {
                    let one = pawn_step_y(c, origin.y as int, 1);
                    if m.1.x == origin.x && m.1.y as int == one {
                    } else if m.1.x == origin.x {
                        assert(m.1.y as int == pawn_step_y(c, origin.y as int, 2));
                    } else if m.1.x as int == origin.x as int - 1 {
                        assert(m.1.y as int == one);
                    } else {
                        assert(m.1.x as int == origin.x as int + 1 && m.1.y as int == one);
                    }
                }
            }
        }
        r
    }
}

/// `d` is a pseudo-legal destination for whatever piece stands on `o`,
/// by that piece's geometry and the current occupancy.
pub open spec fn pseudo_dest(v: BoardView, o: Coordinates, d: Coordinates) -> bool {
    match kind_at(v, o) {
        PieceType::King => king_dest(v, o, d),
        PieceType::Queen => lateral_reachable(v, o, d) || diagonal_reachable(v, o, d),
        PieceType::Pawn => pawn_dest(v, o, d),
        PieceType::Bishop => diagonal_reachable(v, o, d),
        PieceType::Knight => knight_dest(v, o, d),
        PieceType::Rook => lateral_reachable(v, o, d),
        PieceType::Empty => false,
    }
}

/// `m` is a pseudo-legal move of colour `c`: it starts on a piece of that
/// colour and its destination is reachable by that piece's geometry.
pub open spec fn pseudo_move(v: BoardView, m: Move, c: PieceColour) -> bool {
    &&& coord_wf(m.0)
    &&& c != PieceColour::Empty
    &&& colour_at(v, m.0) == c
    &&& pseudo_dest(v, m.0, m.1)
}

/// The two pseudo-legal move lists of a position, one per colour. Always
/// regenerated in full; the legality filter and the special-move layer turn
/// this into the authoritative legal list.
#[derive(Debug, Clone)]
pub struct PlayerValidMoves {
    pub white: MoveList,
    pub black: MoveList,
}

/// Generate both colours' full pseudo-legal move lists: for every occupied
/// square, the moves of the piece standing there.
pub fn get_valid_moves_for_piece(board: &Board) -> (r: PlayerValidMoves)
    requires
        board_wf(board@),
    ensures
        forall|m: Move| #[trigger]
            r.white@.contains(m) <==> pseudo_move(board@, m, PieceColour::White),
        forall|m: Move| #[trigger]
            r.black@.contains(m) <==> pseudo_move(board@, m, PieceColour::Black),
{
    let ghost v = board@;
    let mut white_move_list: MoveList = Vec::new();
    let mut black_move_list: MoveList = Vec::new();
    let mut i: usize = 0;
    while i < 64
        invariant
            i <= 64,
            board_wf(v),
            v == board@,
            forall|m: Move| #[trigger]
                white_move_list@.contains(m) <==> (pseudo_move(v, m, PieceColour::White) && sq(m.0)
                    < i),
            forall|m: Move| #[trigger]
                black_move_list@.contains(m) <==> (pseudo_move(v, m, PieceColour::Black) && sq(m.0)
                    < i),
        decreases 64 - i,
    {
        let square_colour = board.colours[i];
        if !matches!(square_colour, PieceColour::Empty) {
            let origin = Coordinates::from_index(i);
            let mut moves: MoveList = match board.kinds[i] {
                PieceType::King => King::get_valid_moves(board, origin),
                PieceType::Queen => Queen::get_valid_moves(board, origin),
                PieceType::Rook => Rook::get_valid_moves(board, origin),
                PieceType::Bishop => Bishop::get_valid_moves(board, origin),
                PieceType::Knight => Knight::get_valid_moves(board, origin),
                PieceType::Pawn => Pawn::get_valid_moves(board, origin),
                PieceType::Empty => Vec::new(),
            };
            proof {
                assert(colour_at(v, origin) == square_colour);
                assert forall|m: Move| #[trigger]
                    moves@.contains(m) <==> (m.0 == origin && pseudo_dest(v, m.0, m.1)) by {}
            }
            if matches!(square_colour, PieceColour::White) {
                white_move_list.append(&mut moves);
            } else {
                black_move_list.append(&mut moves);
            }
            proof {
                assert forall|m: Move| #[trigger]
                    white_move_list@.contains(m) <==> (pseudo_move(v, m, PieceColour::White) && sq(
                    m.0) < i + 1) by {
                    if white_move_list@.contains(m) && m.0 == origin {
                        assert(sq(m.0) == i as int);
                    }
                    if pseudo_move(v, m, PieceColour::White) && sq(m.0) == i as int {
                        assert(m.0 == coord_at(i as int));
                    }
                }
                assert forall|m: Move| #[trigger]
                    black_move_list@.contains(m) <==> (pseudo_move(v, m, PieceColour::Black) && sq(
                    m.0) < i + 1) by {
                    if black_move_list@.contains(m) && m.0 == origin {
                        assert(sq(m.0) == i as int);
                    }
                    if pseudo_move(v, m, PieceColour::Black) && sq(m.0) == i as int {
                        assert(m.0 == coord_at(i as int));
                    }
                }
            }
        } else {
            proof {
                assert forall|m: Move|
                    pseudo_move(v, m, PieceColour::White) && sq(m.0) == i as int implies false by {
                    assert(m.0 == coord_at(i as int));
                }
                assert forall|m: Move|
                    pseudo_move(v, m, PieceColour::Black) && sq(m.0) == i as int implies false by {
                    assert(m.0 == coord_at(i as int));
                }
            }
        }
        i += 1;
    }
    PlayerValidMoves { white: white_move_list, black: black_move_list }
}

/// Basic facts about any pseudo-legal destination of an occupied origin:
/// it is on the board, differs from the origin, never holds the mover's own
/// colour, and the move is neither a castle nor an en-passant capture (those
/// are synthesised by the special-move layer, never by the generator).
pub proof fn lemma_pseudo_dest_wf(v: BoardView, o: Coordinates, d: Coordinates)
    requires
        board_wf(v),
        coord_wf(o),
        colour_at(v, o) != PieceColour::Empty,
        pseudo_dest(v, o, d),
    ensures
        coord_wf(d),
        d != o,
        colour_at(v, d) != colour_at(v, o),
        !crate::board::is_castle_move(v, (o, d)),
        !crate::board::is_en_passant_capture(v, (o, d)),
{
    match kind_at(v, o) {
        PieceType::King => {
            assert(move_dist((o, d)) == 1);
        },
        PieceType::Knight => {},
        PieceType::Pawn => {},
        PieceType::Queen | PieceType::Rook | PieceType::Bishop => {
            if lateral_reachable(v, o, d) || diagonal_reachable(v, o, d) {
                assert(move_dist((o, d)) >= 1);
            }
        },
        PieceType::Empty => {},
    }
}

/// Square `i` holds a king of colour `c`.
pub open spec fn is_king_of(v: BoardView, c: PieceColour, i: int) -> bool {
    0 <= i < 64 && v.kinds[i] == PieceType::King && v.colours[i] == c
}

/// The board holds a king of colour `c`.
pub open spec fn has_king(v: BoardView, c: PieceColour) -> bool {
    exists|i: int| is_king_of(v, c, i)
}

/// The board holds exactly one king of colour `c`.
pub open spec fn unique_king(v: BoardView, c: PieceColour) -> bool {
    has_king(v, c) && forall|i: int, j: int|
        is_king_of(v, c, i) && is_king_of(v, c, j) ==> i == j
}

/// The square of the king of colour `c`.
pub open spec fn king_square(v: BoardView, c: PieceColour) -> int {
    choose|i: int| is_king_of(v, c, i)
}

/// Some pseudo-legal move of colour `c` ends on square `s`.
pub open spec fn attacks(v: BoardView, c: PieceColour, s: Coordinates) -> bool {
    exists|m: Move| pseudo_move(v, m, c) && m.1 == s
}

/// The king of colour `c` stands on a square the opponent can capture on.
pub open spec fn in_check(v: BoardView, c: PieceColour) -> bool {
    has_king(v, c) && attacks(v, opposite_colour(c), coord_at(king_square(v, c)))
}

/// Applying a move whose destination and side-effect squares hold no king
/// keeps each colour's king unique: the king stays where it was, or follows
/// the move when it is itself the mover.
pub proof fn lemma_move_preserves_kings(v: BoardView, m: Move, d: PieceColour)
    requires
        board_wf(v),
        coord_wf(m.0),
        coord_wf(m.1),
        sq(m.0) != sq(m.1),
        v.kinds[sq(m.1)] != PieceType::King,
        crate::board::is_castle_move(v, m) ==> crate::board::castle_shape(m),
        crate::board::is_castle_move(v, m) ==> (if m.1.x > m.0.x {
            v.kinds[sq(m.1) + 1] != PieceType::King && v.kinds[sq(m.0) + 1] != PieceType::King
        } else {
            v.kinds[sq(m.1) - 2] != PieceType::King && v.kinds[sq(m.0) - 1] != PieceType::King
        }),
        crate::board::is_en_passant_capture(v, m) ==> v.kinds[crate::board::ep_capture_sq(m)]
            != PieceType::King,
        unique_king(v, d),
    ensures
        unique_king(board_after(v, m), d),
        king_square(board_after(v, m), d) == (if sq(m.0) == king_square(v, d) {
            sq(m.1)
        } else {
            king_square(v, d)
        }),
{
    let b = board_after(v, m);
    let ks = king_square(v, d);
    assert(is_king_of(v, d, ks));
    if sq(m.0) == ks {
        assert(kind_at(v, m.0) == PieceType::King && colour_at(v, m.0) == d);
        assert(!crate::board::is_castle_move(v, m) || crate::board::castle_shape(m));
        assert(is_king_of(b, d, sq(m.1)));
        assert forall|i: int| is_king_of(b, d, i) implies i == sq(m.1) by {
            if i != sq(m.1) && i != sq(m.0) {
                if b.kinds[i] == PieceType::King {
                    assert(is_king_of(v, d, i));
                }
            }
        }
        assert(is_king_of(b, d, king_square(b, d)));
    } else {
        assert(is_king_of(b, d, ks));
        assert forall|i: int| is_king_of(b, d, i) implies i == ks by {
            if i != sq(m.1) && i != sq(m.0) {
                if b.kinds[i] == PieceType::King {
                    assert(is_king_of(v, d, i));
                }
            }
            if i == sq(m.1) {
                assert(is_king_of(v, d, sq(m.0)));
            }
        }
        assert(is_king_of(b, d, king_square(b, d)));
    }
}

/// `m` is a legal move of colour `c` before the special-move extension:
/// pseudo-legal, and applying it does not leave `c`'s own king in check.
pub open spec fn legal_basic(v: BoardView, m: Move, c: PieceColour) -> bool {
    pseudo_move(v, m, c) && !in_check(board_after(v, m), c)
}

/// Some legal (post-filter) move of colour `c` ends on square `s`. Castling
/// eligibility consults this, the opponent's filtered list.
pub open spec fn legal_attacks(v: BoardView, c: PieceColour, s: Coordinates) -> bool {
    exists|m: Move| legal_basic(v, m, c) && m.1 == s
}

} // verus!
