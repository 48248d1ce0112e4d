//! Grid geometry: positions, directions, lines of sight.
//!
//! All maps are 32x20. Movement and adjacency are 8-way. Lines of sight and
//! pounce lanes use a symmetric Bresenham walk so visibility and lane checks
//! agree between hunter and monsters.
use vstd::prelude::*;

verus! {

/// Width of every tactical map, in tiles.
pub const MAP_WIDTH: i16 = 32;

/// Height of every tactical map, in tiles.
pub const MAP_HEIGHT: i16 = 20;

/// A tile position on a tactical map.
#[derive(Debug, Clone, Copy, PartialEq, Eq, Structural)]
pub struct Point {
    pub x: i16,
    pub y: i16,
}

pub open spec fn abs(v: int) -> int {
    if v < 0 {
        -v
    } else {
        v
    }
}

pub open spec fn max(a: int, b: int) -> int {
    if a >= b {
        a
    } else {
        b
    }
}

pub open spec fn signum(v: int) -> int {
    if v > 0 {
        1
    } else if v < 0 {
        -1
    } else {
        0
    }
}

/// Chebyshev distance: turns needed to walk between points on open ground.
pub open spec fn chebyshev(a: Point, b: Point) -> int {
    max(abs(a.x - b.x), abs(a.y - b.y))
}

/// Whether the coordinate differences between two points fit the 16-bit
/// arithmetic the grid is computed in.
pub open spec fn diff_fits(a: Point, b: Point) -> bool {
    &&& i16::MIN < a.x - b.x <= i16::MAX
    &&& i16::MIN < a.y - b.y <= i16::MAX
}

pub open spec fn spec_in_bounds(p: Point) -> bool {
    0 <= p.x < MAP_WIDTH && 0 <= p.y < MAP_HEIGHT
}

fn abs_i16(v: i16) -> (r: i16)
    requires
        v > i16::MIN,
    ensures
        r == abs(v as int),
{
    if v < 0 {
        -v
    } else {
        v
    }
}

/// The tile one step from `p` in direction `d`.
pub open spec fn stepped(p: Point, d: Direction) -> Point {
    Point { x: (p.x + d.spec_delta().0) as i16, y: (p.y + d.spec_delta().1) as i16 }
}

impl Point {
    pub fn new(x: i16, y: i16) -> (p: Point)
        ensures
            p.x == x,
            p.y == y,
    {
        Point { x, y }
    }

    pub fn in_bounds(self) -> (r: bool)
        ensures
            r == spec_in_bounds(self),
    {
        0 <= self.x && self.x < MAP_WIDTH && 0 <= self.y && self.y < MAP_HEIGHT
    }

    /// Chebyshev distance: turns needed to walk between points on open ground.
    pub fn distance(self, other: Point) -> (d: i16)
        requires
            diff_fits(self, other),
        ensures
            d == chebyshev(self, other),
    {
        let dx = abs_i16(self.x - other.x);
        let dy = abs_i16(self.y - other.y);
        if dx >= dy {
            dx
        } else {
            dy
        }
    }

    pub fn step(self, dir: Direction) -> (p: Point)
        requires
            i16::MIN <= self.x + dir.spec_delta().0 <= i16::MAX,
            i16::MIN <= self.y + dir.spec_delta().1 <= i16::MAX,
        ensures
            p.x == self.x + dir.spec_delta().0,
            p.y == self.y + dir.spec_delta().1,
    {
        let (dx, dy) = dir.delta();
        Point::new(self.x + dx, self.y + dy)
    }

    pub fn is_adjacent(self, other: Point) -> (r: bool)
        requires
            diff_fits(self, other),
        ensures
            r == (self != other && chebyshev(self, other) <= 1),
    {
        !(self.x == other.x && self.y == other.y) && self.distance(other) <= 1
    }

    /// The eight surrounding tiles, in `Direction::ALL` order.
    pub fn neighbours(self) -> (r: Vec<Point>)
        requires
            i16::MIN < self.x < i16::MAX,
            i16::MIN < self.y < i16::MAX,
        ensures
            r.len() == 8,
            forall|k: int| 0 <= k < 8 ==> #[trigger] r@[k] == stepped(self, spec_all()[k]),
    {
        let dirs = Direction::ALL;
        let mut out: Vec<Point> = Vec::new();
        for k in 0..8
            invariant
                dirs@ == spec_all(),
                out.len() == k,
                i16::MIN < self.x < i16::MAX,
                i16::MIN < self.y < i16::MAX,
                forall|m: int| 0 <= m < k ==> #[trigger] out@[m] == stepped(self, spec_all()[m]),
        {
            out.push(self.step(dirs[k]));
        }
        out
    }
}

#[derive(Debug, Clone, Copy, PartialEq, Eq, Structural)]
pub enum Direction {
    North,
    NorthEast,
    East,
    SouthEast,
    South,
    SouthWest,
    West,
    NorthWest,
}

pub open spec fn spec_all() -> Seq<Direction> {
    seq![
        Direction::North,
        Direction::NorthEast,
        Direction::East,
        Direction::SouthEast,
        Direction::South,
        Direction::SouthWest,
        Direction::West,
        Direction::NorthWest,
    ]
}

pub open spec fn spec_orthogonal_first() -> Seq<Direction> {
    seq![
        Direction::North,
        Direction::East,
        Direction::South,
        Direction::West,
        Direction::NorthEast,
        Direction::SouthEast,
        Direction::SouthWest,
        Direction::NorthWest,
    ]
}

impl Direction {
    /// All eight directions, clockwise from north.
    pub const ALL: [Direction; 8] = [
        Direction::North,
        Direction::NorthEast,
        Direction::East,
        Direction::SouthEast,
        Direction::South,
        Direction::SouthWest,
        Direction::West,
        Direction::NorthWest,
    ];

    /// All eight directions with the four orthogonals first. A breadth-first
    /// search that visits neighbours in this order breaks ties toward
    /// orthogonal steps, so equal-length paths prefer straight movement over
    /// diagonal.
    pub const ORTHOGONAL_FIRST: [Direction; 8] = [
        Direction::North,
        Direction::East,
        Direction::South,
        Direction::West,
        Direction::NorthEast,
        Direction::SouthEast,
        Direction::SouthWest,
        Direction::NorthWest,
    ];

    pub open spec fn spec_delta(self) -> (int, int) {
        match self {
            Direction::North => (0, -1),
            Direction::NorthEast => (1, -1),
            Direction::East => (1, 0),
            Direction::SouthEast => (1, 1),
            Direction::South => (0, 1),
            Direction::SouthWest => (-1, 1),
            Direction::West => (-1, 0),
            Direction::NorthWest => (-1, -1),
        }
    }

    pub fn delta(self) -> (d: (i16, i16))
        ensures
            d.0 == self.spec_delta().0,
            d.1 == self.spec_delta().1,
    {
        match self {
            Direction::North => (0, -1),
            Direction::NorthEast => (1, -1),
            Direction::East => (1, 0),
            Direction::SouthEast => (1, 1),
            Direction::South => (0, 1),
            Direction::SouthWest => (-1, 1),
            Direction::West => (-1, 0),
            Direction::NorthWest => (-1, -1),
        }
    }

    /// The direction that best steps from `from` toward `to`: the one whose
    /// delta is the sign of the offset on each axis.
    pub fn toward(from: Point, to: Point) -> (r: Option<Direction>)
        requires
            i16::MIN <= to.x - from.x <= i16::MAX,
            i16::MIN <= to.y - from.y <= i16::MAX,
        ensures
            r.is_none() <==> from == to,
            r matches Some(d) ==> d.spec_delta() == (signum(to.x - from.x), signum(to.y - from.y)),
    {
        if from.x == to.x && from.y == to.y {
            return None;
        }
        let dx = to.x - from.x;
        let dy = to.y - from.y;
        let d = if dx > 0 {
            if dy > 0 {
                Direction::SouthEast
            } else if dy < 0 {
                Direction::NorthEast
            } else {
                Direction::East
            }
        } else if dx < 0 {
            if dy > 0 {
                Direction::SouthWest
            } else if dy < 0 {
                Direction::NorthWest
            } else {
                Direction::West
            }
        } else if dy > 0 {
            Direction::South
        } else {
            Direction::North
        };
        Some(d)
    }
}

/// Lexicographic order on `(x, y)`, which picks the end a line is walked from.
pub open spec fn lex_le(a: Point, b: Point) -> bool {
    a.x < b.x || (a.x == b.x && a.y <= b.y)
}

/// One step of the Bresenham walk: the next tile and the next error term.
pub open spec fn walk_next(cur: Point, err: int, dx: int, dy: int, sx: int, sy: int) -> (Point, int) {
    let doubled = 2 * err;
    let err1 = if doubled >= dy {
        err + dy
    } else {
        err
    };
    let x1 = if doubled >= dy {
        cur.x + sx
    } else {
        cur.x as int
    };
    let err2 = if doubled <= dx {
        err1 + dx
    } else {
        err1
    };
    let y1 = if doubled <= dx {
        cur.y + sy
    } else {
        cur.y as int
    };
    (Point { x: x1 as i16, y: y1 as i16 }, err2)
}

/// The Bresenham walk from `cur` toward `b`, given the walk's error term and
/// its fixed per-axis parameters; `a` is the walk's starting end, which is
/// never emitted. `fuel` bounds the number of steps taken.
pub open spec fn bresenham_walk(
    a: Point,
    cur: Point,
    b: Point,
    err: int,
    dx: int,
    dy: int,
    sx: int,
    sy: int,
    fuel: nat,
) -> Seq<Point>
    decreases fuel,
{
    if cur == b || fuel == 0 {
        seq![]
    } else {
        let head = if cur != a {
            seq![cur]
        } else {
            seq![]
        };
        let (next, err1) = walk_next(cur, err, dx, dy, sx, sy);
        head + bresenham_walk(a, next, b, err1, dx, dy, sx, sy, (fuel - 1) as nat)
    }
}

/// The walk from the lexicographically smaller end `a` to `b`.
pub open spec fn ordered_line(a: Point, b: Point) -> Seq<Point> {
    let dx = abs(b.x - a.x);
    let dy = -abs(b.y - a.y);
    let sx: int = if a.x < b.x {
        1
    } else {
        -1
    };
    let sy: int = if a.y < b.y {
        1
    } else {
        -1
    };
    bresenham_walk(a, a, b, dx + dy, dx, dy, sx, sy, (dx - dy) as nat)
}

/// Every point strictly between `from` and `to` on the symmetric Bresenham
/// line: the walk always starts from the lexicographically smaller end.
pub open spec fn line_spec(from: Point, to: Point) -> Seq<Point> {
    if lex_le(from, to) {
        ordered_line(from, to)
    } else {
        ordered_line(to, from)
    }
}

/// Coordinates whose differences, taken either way round, fit the 16-bit
/// arithmetic the grid is computed in.
pub open spec fn line_fits(a: Point, b: Point) -> bool {
    abs(a.x - b.x) <= i16::MAX && abs(a.y - b.y) <= i16::MAX
}

proof fn lemma_no_x_overshoot(dx: int, dy: int, i: int, j: int, err: int)
    by (nonlinear_arith)
    requires
        0 <= j < dy,
        0 <= i == dx,
        err == dx * (j + 1) - dy * (i + 1),
    ensures
        2 * err < -dy,
{
    assert(dx * (j + 1) <= dx * dy);
}

proof fn lemma_no_y_overshoot(dx: int, dy: int, i: int, j: int, err: int)
    by (nonlinear_arith)
    requires
        0 <= i < dx,
        0 <= j == dy,
        err == dx * (j + 1) - dy * (i + 1),
    ensures
        2 * err > dx,
{
    assert(dy * (i + 1) <= dy * dx);
}

proof fn lemma_axis(a0: int, s: int, k: int, n: int, b0: int)
    by (nonlinear_arith)
    requires
        s == 1 || s == -1,
        0 <= k <= n,
        b0 == a0 + s * n,
    ensures
        a0 <= b0 ==> a0 <= a0 + s * k <= b0,
        a0 > b0 ==> b0 <= a0 + s * k <= a0,
        a0 + s * k + s == a0 + s * (k + 1),
        (a0 + s * k == b0) <==> k == n,
{
}

proof fn lemma_err_step(dx: int, dy: int, i: int, j: int, err: int, di: int, dj: int)
    by (nonlinear_arith)
    requires
        err == dx * (j + 1) - dy * (i + 1),
    ensures
        err - dy * di + dx * dj == dx * (j + dj + 1) - dy * (i + di + 1),
{
}

/// Every point strictly between `from` and `to` on a Bresenham line.
///
/// Symmetric: the walk always runs from the lexicographically smaller
/// endpoint so `line_between(a, b) == line_between(b, a)`.
pub fn line_between(from: Point, to: Point) -> (points: Vec<Point>)
    requires
        line_fits(from, to),
    ensures
        points@ == line_spec(from, to),
        forall|k: int| 0 <= k < points.len() ==> #[trigger] points@[k] != from && points@[k] != to,
{
    let (a, b) = if from.x < to.x || (from.x == to.x && from.y <= to.y) {
        (from, to)
    } else {
        (to, from)
    };
    let mut points: Vec<Point> = Vec::new();
    let dx: i16 = abs_i16(b.x - a.x);
    let dy: i16 = -abs_i16(b.y - a.y);
    let sx: i16 = if a.x < b.x {
        1
    } else {
        -1
    };
    let sy: i16 = if a.y < b.y {
        1
    } else {
        -1
    };
    let mut err: i32 = dx as i32 + dy as i32;
    let mut current = a;
    let ghost big_dy: int = -dy;
    let ghost mut i: int = 0;
    let ghost mut j: int = 0;
    let ghost fuel0: nat = (dx - dy) as nat;
    let ghost mut fuel: nat = fuel0;
    proof {
        assert(err == dx * (j + 1) - big_dy * (i + 1)) by (nonlinear_arith)
            requires
                i == 0,
                j == 0,
                err == dx - big_dy,
        ;
        lemma_axis(a.x as int, sx as int, 0, dx as int, b.x as int);
        lemma_axis(a.y as int, sy as int, 0, big_dy, b.y as int);
    }
    while current.x != b.x || current.y != b.y
        invariant
            line_fits(a, b),
            dx == abs(b.x - a.x),
            big_dy == abs(b.y - a.y),
            dy == -big_dy,
            sx == (if a.x < b.x {
                1int
            } else {
                -1int
            }),
            sy == (if a.y < b.y {
                1int
            } else {
                -1int
            }),
            0 <= i <= dx,
            0 <= j <= big_dy,
            current.x == a.x + sx * i,
            current.y == a.y + sy * j,
            b.x == a.x + sx * dx,
            b.y == a.y + sy * big_dy,
            err == dx * (j + 1) - big_dy * (i + 1),
            -3 * big_dy <= 2 * err <= 3 * dx,
            fuel >= (dx - i) + (big_dy - j),
            forall|k: int| 0 <= k < points.len() ==> #[trigger] points@[k] != a && points@[k] != b,
            points@ + bresenham_walk(a, current, b, err as int, dx as int, dy as int, sx as int, sy as int, fuel)
                == bresenham_walk(a, a, b, dx + dy, dx as int, dy as int, sx as int, sy as int, fuel0),
        decreases (dx - i) + (big_dy - j),
    {
        proof {
            // Not at `b` yet, so some axis still has ground to cover.
            lemma_axis(a.x as int, sx as int, i, dx as int, b.x as int);
            lemma_axis(a.y as int, sy as int, j, big_dy, b.y as int);
        }
        let ghost old_points = points@;
        let ghost old_current = current;
        let ghost old_err = err as int;
        let ghost old_fuel = fuel;
        if current.x != a.x || current.y != a.y {
            points.push(current);
        }
        let doubled = 2 * err;
        let step_x = doubled >= dy as i32;
        let step_y = doubled <= dx as i32;
        proof {
            if i == dx && j < big_dy {
                lemma_no_x_overshoot(dx as int, big_dy, i, j, err as int);
            }
            if j == big_dy && i < dx {
                lemma_no_y_overshoot(dx as int, big_dy, i, j, err as int);
            }
            let di: int = if step_x {
                1
            } else {
                0
            };
            let dj: int = if step_y {
                1
            } else {
                0
            };
            lemma_err_step(dx as int, big_dy, i, j, err as int, di, dj);
        }
        proof {
            if step_x {
                lemma_axis(a.x as int, sx as int, i + 1, dx as int, b.x as int);
            }
            if step_y {
                lemma_axis(a.y as int, sy as int, j + 1, big_dy, b.y as int);
            }
        }
        if step_x {
            err = err + dy as i32;
            current.x = current.x + sx;
            proof {
                i = i + 1;
            }
        }
        if step_y {
            err = err + dx as i32;
            current.y = current.y + sy;
            proof {
                j = j + 1;
            }
        }
        proof {
            fuel = (fuel - 1) as nat;
            assert(old_current != b);
            assert(bresenham_walk(a, old_current, b, old_err, dx as int, dy as int, sx as int, sy as int, old_fuel)
                == (if old_current != a { seq![old_current] } else { seq![] }) + bresenham_walk(
                    a, current, b, err as int, dx as int, dy as int, sx as int, sy as int, fuel));
            assert(points@ == old_points + (if old_current != a { seq![old_current] } else { seq![] }));
            assert(points@ + bresenham_walk(a, current, b, err as int, dx as int, dy as int, sx as int, sy as int, fuel)
                =~= old_points + bresenham_walk(a, old_current, b, old_err, dx as int, dy as int, sx as int, sy as int, old_fuel));
        }
    }
    proof {
        lemma_axis(a.x as int, sx as int, i, dx as int, b.x as int);
        lemma_axis(a.y as int, sy as int, j, big_dy, b.y as int);
        assert(current == b);
        assert(bresenham_walk(a, current, b, err as int, dx as int, dy as int, sx as int, sy as int, fuel) =~= seq![]);
        assert(points@ =~= ordered_line(a, b));
    }
    points
}

/// The line between two points does not depend on which end it is asked
/// from.
pub proof fn lemma_line_between_symmetric(a: Point, b: Point)
    ensures
        line_spec(a, b) == line_spec(b, a),
{
    if a == b {
    } else if lex_le(a, b) {
        assert(!lex_le(b, a));
    } else {
        assert(lex_le(b, a));
    }
}

/// Two tiles that touch (or coincide) have nothing between them.
pub proof fn lemma_adjacent_line_is_empty(a: Point, b: Point)
    requires
        chebyshev(a, b) <= 1,
    ensures
        line_spec(a, b) =~= Seq::<Point>::empty(),
{
    let (p, q) = if lex_le(a, b) {
        (a, b)
    } else {
        (b, a)
    };
    let dx = abs(q.x - p.x);
    let dy = -abs(q.y - p.y);
    let sx: int = if p.x < q.x {
        1
    } else {
        -1
    };
    let sy: int = if p.y < q.y {
        1
    } else {
        -1
    };
    if p != q {
        let err = dx + dy;
        let doubled = 2 * err;
        let x1 = if doubled >= dy {
            p.x + sx
        } else {
            p.x as int
        };
        let y1 = if doubled <= dx {
            p.y + sy
        } else {
            p.y as int
        };
        let next = Point { x: x1 as i16, y: y1 as i16 };
        assert(next == q);
        reveal_with_fuel(bresenham_walk, 2);
        assert(ordered_line(p, q) =~= seq![]);
    }
}

/// The line with both of its ends, walked from the lexicographically smaller
/// end to the other.
pub open spec fn line_path(a: Point, b: Point) -> Seq<Point> {
    if lex_le(a, b) {
        seq![a] + line_spec(a, b) + seq![b]
    } else {
        seq![b] + line_spec(a, b) + seq![a]
    }
}

/// A state of the walk from `a` to `b`: `i` steps taken along x and `j`
/// along y, with the error term that those steps leave.
spec fn walk_ok(a: Point, b: Point, cur: Point, err: int, i: int, j: int) -> bool {
    let dx = abs(b.x - a.x);
    let big_dy = abs(b.y - a.y);
    let sx: int = if a.x < b.x {
        1
    } else {
        -1
    };
    let sy: int = if a.y < b.y {
        1
    } else {
        -1
    };
    &&& 0 <= i <= dx
    &&& 0 <= j <= big_dy
    &&& cur.x == a.x + sx * i
    &&& cur.y == a.y + sy * j
    &&& err == dx * (j + 1) - big_dy * (i + 1)
    &&& dx >= big_dy ==> 2 * err > -big_dy
    &&& big_dy >= dx ==> 2 * err < dx
}

/// Steps taken along the longer axis, which every step of the walk advances.
spec fn walk_major(a: Point, b: Point, i: int, j: int) -> int {
    if abs(b.x - a.x) >= abs(b.y - a.y) {
        i
    } else {
        j
    }
}

spec fn walk_from(a: Point, cur: Point, b: Point, err: int, fuel: nat) -> Seq<Point> {
    let dx = abs(b.x - a.x);
    let dy = -abs(b.y - a.y);
    let sx: int = if a.x < b.x {
        1
    } else {
        -1
    };
    let sy: int = if a.y < b.y {
        1
    } else {
        -1
    };
    bresenham_walk(a, cur, b, err, dx, dy, sx, sy, fuel)
}

spec fn next_of(a: Point, b: Point, cur: Point, err: int) -> (Point, int) {
    let dx = abs(b.x - a.x);
    let dy = -abs(b.y - a.y);
    let sx: int = if a.x < b.x {
        1
    } else {
        -1
    };
    let sy: int = if a.y < b.y {
        1
    } else {
        -1
    };
    walk_next(cur, err, dx, dy, sx, sy)
}

proof fn lemma_minor_done(big: int, small: int, k: int)
    by (nonlinear_arith)
    requires
        big > 0,
        0 <= k <= small,
        2 * (big * (k + 1) - small * (big + 1)) > -small,
    ensures
        k == small,
{
    if k < small {
        assert(big * (k + 1) <= big * small);
    }
}

/// The walk is at `b` exactly when its longer axis is used up.
proof fn lemma_walk_at_end(a: Point, b: Point, cur: Point, err: int, i: int, j: int)
    requires
        a != b,
        walk_ok(a, b, cur, err, i, j),
    ensures
        (cur == b) <==> walk_major(a, b, i, j) == chebyshev(a, b),
{
    let dx = abs(b.x - a.x);
    let big_dy = abs(b.y - a.y);
    let sx: int = if a.x < b.x {
        1
    } else {
        -1
    };
    let sy: int = if a.y < b.y {
        1
    } else {
        -1
    };
    lemma_axis(a.x as int, sx, i, dx, b.x as int);
    lemma_axis(a.y as int, sy, j, big_dy, b.y as int);
    if dx >= big_dy {
        if i == dx {
            lemma_minor_done(dx, big_dy, j);
        }
    } else {
        if j == big_dy {
            lemma_minor_done(big_dy, dx, i);
        }
    }
}

/// A step of the walk keeps it in a sound state, advances the longer axis by
/// one, and moves to a touching tile.
proof fn lemma_walk_step(a: Point, b: Point, cur: Point, err: int, i: int, j: int)
    requires
        a != b,
        walk_ok(a, b, cur, err, i, j),
        cur != b,
    ensures
        ({
            let (next, err1) = next_of(a, b, cur, err);
            let di: int = if 2 * err >= -abs(b.y - a.y) {
                1
            } else {
                0
            };
            let dj: int = if 2 * err <= abs(b.x - a.x) {
                1
            } else {
                0
            };
            &&& walk_ok(a, b, next, err1, i + di, j + dj)
            &&& walk_major(a, b, i + di, j + dj) == walk_major(a, b, i, j) + 1
            &&& chebyshev(cur, next) == 1
        }),
{
    let dx = abs(b.x - a.x);
    let big_dy = abs(b.y - a.y);
    let sx: int = if a.x < b.x {
        1
    } else {
        -1
    };
    let sy: int = if a.y < b.y {
        1
    } else {
        -1
    };
    lemma_walk_at_end(a, b, cur, err, i, j);
    lemma_axis(a.x as int, sx, i, dx, b.x as int);
    lemma_axis(a.y as int, sy, j, big_dy, b.y as int);
    let di: int = if 2 * err >= -big_dy {
        1
    } else {
        0
    };
    let dj: int = if 2 * err <= dx {
        1
    } else {
        0
    };
    if i == dx && j < big_dy {
        lemma_no_x_overshoot(dx, big_dy, i, j, err);
    }
    if j == big_dy && i < dx {
        lemma_no_y_overshoot(dx, big_dy, i, j, err);
    }
    lemma_err_step(dx, big_dy, i, j, err, di, dj);
    lemma_axis(a.x as int, sx, i + di, dx, b.x as int);
    lemma_axis(a.y as int, sy, j + dj, big_dy, b.y as int);
    let (next, err1) = next_of(a, b, cur, err);
    assert(next.x == a.x + sx * (i + di));
    assert(next.y == a.y + sy * (j + dj));
    assert(next.x - cur.x == sx * di);
    assert(next.y - cur.y == sy * dj);
}

/// From a state past its start, the walk lists every tile up to but not
/// including `b`, each touching the next.
proof fn lemma_walk_shape(a: Point, b: Point, cur: Point, err: int, i: int, j: int, fuel: nat)
    requires
        a != b,
        walk_ok(a, b, cur, err, i, j),
        walk_major(a, b, i, j) > 0,
        fuel >= chebyshev(a, b) - walk_major(a, b, i, j),
    ensures
        ({
            let w = walk_from(a, cur, b, err, fuel);
            let n = chebyshev(a, b) - walk_major(a, b, i, j);
            &&& w.len() == n
            &&& n > 0 ==> w[0] == cur && chebyshev(w[n - 1], b) == 1
            &&& forall|k: int| 0 <= k < n - 1 ==> chebyshev(#[trigger] w[k], w[k + 1]) == 1
        }),
    decreases fuel,
{
    let dx = abs(b.x - a.x);
    let big_dy = abs(b.y - a.y);
    let sx: int = if a.x < b.x {
        1
    } else {
        -1
    };
    lemma_walk_at_end(a, b, cur, err, i, j);
    lemma_axis(a.x as int, sx, i, dx, b.x as int);
    let n = chebyshev(a, b) - walk_major(a, b, i, j);
    if cur == b {
        assert(walk_from(a, cur, b, err, fuel) =~= seq![]);
    } else {
        let sy: int = if a.y < b.y {
            1
        } else {
            -1
        };
        lemma_axis(a.x as int, sx, 0, i, a.x + sx * i);
        lemma_axis(a.y as int, sy, 0, j, a.y + sy * j);
        assert(cur != a);
        lemma_walk_step(a, b, cur, err, i, j);
        let (next, err1) = next_of(a, b, cur, err);
        let di: int = if 2 * err >= -big_dy {
            1
        } else {
            0
        };
        let dj: int = if 2 * err <= dx {
            1
        } else {
            0
        };
        lemma_walk_shape(a, b, next, err1, i + di, j + dj, (fuel - 1) as nat);
        lemma_walk_at_end(a, b, next, err1, i + di, j + dj);
        let rest = walk_from(a, next, b, err1, (fuel - 1) as nat);
        let w = walk_from(a, cur, b, err, fuel);
        assert(w =~= seq![cur] + rest);
        assert forall|k: int| 0 <= k < n - 1 implies chebyshev(#[trigger] w[k], w[k + 1]) == 1 by {
            if k > 0 {
                assert(w[k] == rest[k - 1]);
                assert(w[k + 1] == rest[k]);
            }
        }
    }
}

/// The line between two tiles has one tile fewer than the distance between
/// them, and walking it from the lexicographically smaller end, every tile
/// touches the next.
pub proof fn lemma_line_between_steps(a: Point, b: Point)
    ensures
        line_spec(a, b).len() == (if a == b {
            0
        } else {
            chebyshev(a, b) - 1
        }),
        a != b ==> forall|k: int|
            0 <= k < line_path(a, b).len() - 1 ==> chebyshev(#[trigger] line_path(a, b)[k], line_path(a, b)[k + 1])
                == 1,
{
    let (p, q) = if lex_le(a, b) {
        (a, b)
    } else {
        (b, a)
    };
    assert(line_spec(a, b) == ordered_line(p, q));
    assert(chebyshev(a, b) == chebyshev(p, q));
    let dx = abs(q.x - p.x);
    let big_dy = abs(q.y - p.y);
    let fuel0: nat = (dx + big_dy) as nat;
    if p == q {
        assert(ordered_line(p, q) =~= seq![]);
    } else {
        let err0 = dx - big_dy;
        assert(err0 == dx * (0 + 1) - big_dy * (0 + 1)) by (nonlinear_arith)
            requires
                err0 == dx - big_dy,
        ;
        assert(walk_ok(p, q, p, err0, 0, 0));
        lemma_walk_step(p, q, p, err0, 0, 0);
        let (next, err1) = next_of(p, q, p, err0);
        let di: int = if 2 * err0 >= -big_dy {
            1
        } else {
            0
        };
        let dj: int = if 2 * err0 <= dx {
            1
        } else {
            0
        };
        lemma_walk_shape(p, q, next, err1, di, dj, (fuel0 - 1) as nat);
        lemma_walk_at_end(p, q, next, err1, di, dj);
        let rest = walk_from(p, next, q, err1, (fuel0 - 1) as nat);
        assert(ordered_line(p, q) =~= rest);
        let n = rest.len() as int;
        let path = seq![p] + rest + seq![q];
        assert(line_path(a, b) =~= path);
        assert forall|k: int| 0 <= k < path.len() - 1 implies chebyshev(#[trigger] path[k], path[k + 1]) == 1 by {
            if k == 0 {
                if n > 0 {
                    assert(path[1] == rest[0]);
                } else {
                    assert(path[1] == q);
                }
            } else if k < n {
                assert(path[k] == rest[k - 1]);
                assert(path[k + 1] == rest[k]);
            } else {
                assert(path[k] == rest[n - 1]);
                assert(path[k + 1] == q);
            }
        }
    }
}

} // verus!
