use vstd::prelude::*;

verus! {

/// A cell of the board, in logical columns and rows.
#[derive(Debug, Clone, Copy, PartialEq, Eq, Structural)]
pub struct Point {
    pub x: u16,
    pub y: u16,
}

/// The way the snake's head is heading.
#[derive(Debug, Clone, Copy, PartialEq, Eq, Structural)]
pub enum Direction {
    Up,
    Down,
    Right,
    Left,
}

/// The direction that points the other way.
pub open spec fn opposite(d: Direction) -> Direction {
    match d {
        Direction::Up => Direction::Down,
        Direction::Down => Direction::Up,
        Direction::Right => Direction::Left,
        Direction::Left => Direction::Right,
    }
}

/// A cell lies on a board of `width` columns and `height` rows.
pub open spec fn on_board(p: Point, width: int, height: int) -> bool {
    p.x < width && p.y < height
}

/// The neighbouring cell of `p` in direction `d` on a board whose edges wrap
/// around: leaving on one side re-enters on the opposite side.
pub open spec fn step(p: Point, d: Direction, width: int, height: int) -> Point {
    match d {
        Direction::Up => Point { x: p.x, y: ((p.y + height - 1) % height) as u16 },
        Direction::Down => Point { x: p.x, y: ((p.y + 1) % height) as u16 },
        Direction::Right => Point { x: ((p.x + 1) % width) as u16, y: p.y },
        Direction::Left => Point { x: ((p.x + width - 1) % width) as u16, y: p.y },
    }
}

/// `k` wrapped steps from `p`, all in direction `d`.
pub open spec fn walk(p: Point, d: Direction, k: nat, width: int, height: int) -> Point
    decreases k,
{
    if k == 0 {
        p
    } else {
        step(walk(p, d, (k - 1) as nat, width, height), d, width, height)
    }
}

proof fn lemma_mod_below_twice(a: int, n: int)
    by (nonlinear_arith)
    requires
        0 < n,
        0 <= a < 2 * n,
    ensures
        a % n == (if a < n { a } else { a - n }),
{
}

/// The cell the head moves to from `p` in direction `d`, as the game computes
/// it: one cell over, jumping to the far side when leaving the board at its
/// first or last row or column. On the board this is `step`; off the board
/// (a snake started on a board narrower than itself) the head just moves on.
pub open spec fn advance(p: Point, d: Direction, width: int, height: int) -> Point {
    match d {
        Direction::Up => Point {
            x: p.x,
            y: if p.y == 0 {
                (height - 1) as u16
            } else {
                (p.y - 1) as u16
            },
        },
        Direction::Down => Point {
            x: p.x,
            y: if p.y == height - 1 {
                0
            } else {
                (p.y + 1) as u16
            },
        },
        Direction::Right => Point {
            x: if p.x == width - 1 {
                0
            } else {
                (p.x + 1) as u16
            },
            y: p.y,
        },
        Direction::Left => Point {
            x: if p.x == 0 {
                (width - 1) as u16
            } else {
                (p.x - 1) as u16
            },
            y: p.y,
        },
    }
}

/// `advance` stays within 16-bit coordinates: an empty board is never needed
/// for the wrap-around, and the head is not at the last representable column
/// or row when it moves on without wrapping.
pub open spec fn advance_defined(p: Point, d: Direction, width: int, height: int) -> bool {
    match d {
        Direction::Up => p.y != 0 || height >= 1,
        Direction::Down => height >= 1 && (p.y == height - 1 || p.y < 0xFFFF),
        Direction::Right => width >= 1 && (p.x == width - 1 || p.x < 0xFFFF),
        Direction::Left => p.x != 0 || width >= 1,
    }
}

/// `b` is one wrapped step away from `a`, in some direction.
pub open spec fn adjacent(a: Point, b: Point, width: int, height: int) -> bool {
    ||| step(a, Direction::Up, width, height) == b
    ||| step(a, Direction::Down, width, height) == b
    ||| step(a, Direction::Right, width, height) == b
    ||| step(a, Direction::Left, width, height) == b
}

/// On the board, the head's move is the wrapped step.
pub proof fn lemma_advance_on_board(p: Point, d: Direction, width: int, height: int)
    requires
        1 <= width <= 0x10000,
        1 <= height <= 0x10000,
        on_board(p, width, height),
    ensures
        advance_defined(p, d, width, height),
        advance(p, d, width, height) == step(p, d, width, height),
{
    lemma_mod_below_twice(p.y + height - 1, height);
    lemma_mod_below_twice(p.y + 1, height);
    lemma_mod_below_twice(p.x + width - 1, width);
    lemma_mod_below_twice(p.x + 1, width);
}

/// The cell the head moves to from `p` in direction `d`: one cell over,
/// wrapping at the board's edges.
pub fn neighbour(p: Point, d: Direction, width: u16, height: u16) -> (q: Point)
    requires
        advance_defined(p, d, width as int, height as int),
    ensures
        q == advance(p, d, width as int, height as int),
        width >= 1 && height >= 1 && on_board(p, width as int, height as int) ==> q == step(
            p,
            d,
            width as int,
            height as int,
        ),
{
    proof {
        if width >= 1 && height >= 1 && on_board(p, width as int, height as int) {
            lemma_advance_on_board(p, d, width as int, height as int);
        }
    }
    match d {
        Direction::Up => Point { x: p.x, y: if p.y == 0 { height - 1 } else { p.y - 1 } },
        Direction::Down => Point { x: p.x, y: if p.y == height - 1 { 0 } else { p.y + 1 } },
        Direction::Right => Point { x: if p.x == width - 1 { 0 } else { p.x + 1 }, y: p.y },
        Direction::Left => Point { x: if p.x == 0 { width - 1 } else { p.x - 1 }, y: p.y },
    }
}

/// Whether the head can move from `p` in direction `d` on a board of the
/// given size without leaving 16-bit coordinates.
pub fn can_advance(p: Point, d: Direction, width: u16, height: u16) -> (r: bool)
    ensures
        r == advance_defined(p, d, width as int, height as int),
{
    match d {
        Direction::Up => p.y != 0 || height >= 1,
        Direction::Down => height >= 1 && (p.y == height - 1 || p.y < 0xFFFF),
        Direction::Right => width >= 1 && (p.x == width - 1 || p.x < 0xFFFF),
        Direction::Left => p.x != 0 || width >= 1,
    }
}

/// Whether `a` and `b` point opposite ways.
pub fn is_opposite(a: Direction, b: Direction) -> (r: bool)
    ensures
        r == (b == opposite(a)),
{
    match (a, b) {
        (Direction::Up, Direction::Down) => true,
        (Direction::Down, Direction::Up) => true,
        (Direction::Right, Direction::Left) => true,
        (Direction::Left, Direction::Right) => true,
        _ => false,
    }
}

/// A step never leaves the board.
pub proof fn law_step_stays_on_board(p: Point, d: Direction, width: int, height: int)
    requires
        1 <= width <= 0x10000,
        1 <= height <= 0x10000,
        on_board(p, width, height),
    ensures
        on_board(step(p, d, width, height), width, height),
{
    lemma_mod_below_twice(p.y + height - 1, height);
    lemma_mod_below_twice(p.y + 1, height);
    lemma_mod_below_twice(p.x + width - 1, width);
    lemma_mod_below_twice(p.x + 1, width);
}

/// A step followed by a step the opposite way comes back to the start.
pub proof fn law_opposite_step_returns(p: Point, d: Direction, width: int, height: int)
    requires
        1 <= width <= 0x10000,
        1 <= height <= 0x10000,
        on_board(p, width, height),
    ensures
        step(step(p, d, width, height), opposite(d), width, height) == p,
{
    let q = step(p, d, width, height);
    law_step_stays_on_board(p, d, width, height);
    lemma_mod_below_twice(p.y + height - 1, height);
    lemma_mod_below_twice(p.y + 1, height);
    lemma_mod_below_twice(p.x + width - 1, width);
    lemma_mod_below_twice(p.x + 1, width);
    lemma_mod_below_twice(q.y + height - 1, height);
    lemma_mod_below_twice(q.y + 1, height);
    lemma_mod_below_twice(q.x + width - 1, width);
    lemma_mod_below_twice(q.x + 1, width);
}

proof fn lemma_walk_coordinates(p: Point, d: Direction, k: nat, width: int, height: int)
    requires
        1 <= width <= 0x10000,
        1 <= height <= 0x10000,
        on_board(p, width, height),
    ensures
        on_board(walk(p, d, k, width, height), width, height),
        d == Direction::Right ==> walk(p, d, k, width, height).x == (p.x + k) % width,
        d == Direction::Left ==> walk(p, d, k, width, height).x == (p.x - k) % width,
        d == Direction::Down ==> walk(p, d, k, width, height).y == (p.y + k) % height,
        d == Direction::Up ==> walk(p, d, k, width, height).y == (p.y - k) % height,
        (d == Direction::Right || d == Direction::Left) ==> walk(p, d, k, width, height).y == p.y,
        (d == Direction::Up || d == Direction::Down) ==> walk(p, d, k, width, height).x == p.x,
    decreases k,
{
    if k == 0 {
        vstd::arithmetic::div_mod::lemma_small_mod(p.x as nat, width as nat);
        vstd::arithmetic::div_mod::lemma_small_mod(p.y as nat, height as nat);
    } else {
        let k1 = (k - 1) as nat;
        lemma_walk_coordinates(p, d, k1, width, height);
        let q = walk(p, d, k1, width, height);
        law_step_stays_on_board(q, d, width, height);
        vstd::arithmetic::div_mod::lemma_add_mod_noop_right(1, p.x + k1, width);
        vstd::arithmetic::div_mod::lemma_add_mod_noop_right(1, p.y + k1, height);
        vstd::arithmetic::div_mod::lemma_add_mod_noop_right(width - 1, p.x - k1, width);
        vstd::arithmetic::div_mod::lemma_add_mod_noop_right(height - 1, p.y - k1, height);
        vstd::arithmetic::div_mod::lemma_mod_add_multiples_vanish(p.x - k, width);
        vstd::arithmetic::div_mod::lemma_mod_add_multiples_vanish(p.y - k, height);
    }
}

/// How many steps in direction `d` cross the whole board once.
pub open spec fn lap_length(d: Direction, width: int, height: int) -> nat {
    match d {
        Direction::Left | Direction::Right => width as nat,
        Direction::Up | Direction::Down => height as nat,
    }
}

/// The board wraps around: walking straight across as many cells as the
/// board is wide (going left or right) or high (going up or down) brings the
/// head back to where it started.
pub proof fn law_full_lap_returns(p: Point, d: Direction, width: int, height: int)
    requires
        1 <= width <= 0x10000,
        1 <= height <= 0x10000,
        on_board(p, width, height),
    ensures
        walk(p, d, lap_length(d, width, height), width, height) == p,
{
    let n = lap_length(d, width, height);
    lemma_walk_coordinates(p, d, n, width, height);
    vstd::arithmetic::div_mod::lemma_mod_add_multiples_vanish(p.x as int, width);
    vstd::arithmetic::div_mod::lemma_mod_add_multiples_vanish(p.y as int, height);
    vstd::arithmetic::div_mod::lemma_mod_add_multiples_vanish(p.x - width, width);
    vstd::arithmetic::div_mod::lemma_mod_add_multiples_vanish(p.y - height, height);
    vstd::arithmetic::div_mod::lemma_small_mod(p.x as nat, width as nat);
    vstd::arithmetic::div_mod::lemma_small_mod(p.y as nat, height as nat);
}

} // verus!
