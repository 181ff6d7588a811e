use std::collections::VecDeque;
use vstd::prelude::*;

use crate::geometry::{
    adjacent, advance, advance_defined, can_advance, is_opposite, lemma_advance_on_board,
    law_step_stays_on_board, neighbour, on_board, opposite, step, Direction, Point,
};
use crate::random::random_below;

verus! {

broadcast use vstd::seq_lib::group_seq_properties;

/// What the front end paints at one place of the terminal.
#[derive(Debug, Clone, Copy, PartialEq, Eq, Structural)]
pub enum Paint {
    /// Two blanks, over the cell the tail has just left.
    Blank,
    /// The food.
    Food,
    /// The snake's head.
    Head,
    /// A segment of the snake's body.
    Body,
    /// The score line, carrying the score.
    Score(usize),
}

/// One thing to paint, at a terminal column and row.
#[derive(Debug, Clone, Copy, PartialEq, Eq, Structural)]
pub struct Stroke {
    pub col: u16,
    pub row: u16,
    pub paint: Paint,
}

/// The mathematical picture of a game state.
#[verifier::ext_equal]
pub struct StateView {
    /// The snake's cells, head first.
    pub snake: Seq<Point>,
    pub direction: Direction,
    pub food: Point,
    pub width: u16,
    pub height: u16,
    /// The cell the tail left on the last move, if the snake did not grow.
    pub last_tail: Option<Point>,
}

/// There is a cell of the board that the snake does not cover.
pub open spec fn free_cell_exists(snake: Seq<Point>, width: int, height: int) -> bool {
    exists|p: Point| on_board(p, width, height) && !snake.contains(p)
}

/// `new_food` is an acceptable place for the food after `old_food` was eaten:
/// a free cell of the board when there is one, and otherwise the old place.
pub open spec fn food_choice(
    snake: Seq<Point>,
    width: int,
    height: int,
    old_food: Point,
    new_food: Point,
) -> bool {
    if free_cell_exists(snake, width, height) {
        on_board(new_food, width, height) && !snake.contains(new_food)
    } else {
        new_food == old_food
    }
}

/// The snake the game starts with: nine cells along the top row, the head at
/// column 8 and the tail at column 0.
pub open spec fn initial_snake() -> Seq<Point> {
    Seq::new(9, |i: int| Point { x: (8 - i) as u16, y: 0 })
}

/// `a` comes before `b` when the board is read row by row.
pub open spec fn precedes(a: Point, b: Point) -> bool {
    a.y < b.y || (a.y == b.y && a.x < b.x)
}

/// `p` comes before column `x` of row `y` when the board is read row by row.
pub open spec fn precedes_cell(p: Point, x: int, y: int) -> bool {
    p.y < y || (p.y == y && p.x < x)
}

/// The cells the snake does not cover, reading the board row by row from
/// column `x` of row `y` to the end.
pub open spec fn free_from(snake: Seq<Point>, width: int, height: int, x: int, y: int) -> Seq<
    Point,
>
    decreases height - y, width - x,
{
    if y >= height {
        Seq::empty()
    } else if x >= width {
        free_from(snake, width, height, 0, y + 1)
    } else {
        let p = Point { x: x as u16, y: y as u16 };
        let rest = free_from(snake, width, height, x + 1, y);
        if snake.contains(p) {
            rest
        } else {
            seq![p] + rest
        }
    }
}

/// The cells of the board that the snake does not cover, row by row.
pub open spec fn free_cells_of(snake: Seq<Point>, width: int, height: int) -> Seq<Point> {
    free_from(snake, width, height, 0, 0)
}

/// The stroke that paints `paint` over board cell `p`: every cell is two
/// terminal columns wide.
pub open spec fn stroke_at(p: Point, paint: Paint) -> Stroke {
    Stroke { col: (2 * p.x) as u16, row: p.y, paint }
}

/// The paint of the snake's `i`th cell.
pub open spec fn segment_paint(i: int) -> Paint {
    if i == 0 {
        Paint::Head
    } else {
        Paint::Body
    }
}

impl StateView {
    pub open spec fn on_board(self, p: Point) -> bool {
        on_board(p, self.width as int, self.height as int)
    }

    /// Consecutive cells `i + 1` and `i` of the snake are one wrapped step
    /// apart.
    pub open spec fn linked(self, i: int) -> bool {
        adjacent(self.snake[i + 1], self.snake[i], self.width as int, self.height as int)
    }

    /// The snake lies on the board: a non-empty board, a snake of at least one
    /// cell, its cells distinct, on the board, and each a step away from the
    /// next, and the food on the board.
    pub open spec fn laid_out(self) -> bool {
        &&& self.width >= 1
        &&& self.height >= 1
        &&& self.snake.len() >= 1
        &&& forall|i: int| 0 <= i < self.snake.len() ==> self.on_board(#[trigger] self.snake[i])
        &&& forall|i: int, j: int|
            0 <= i < j < self.snake.len() ==> #[trigger] self.snake[i] != #[trigger] self.snake[j]
        &&& forall|i: int| 0 <= i < self.snake.len() - 1 ==> #[trigger] self.linked(i)
        &&& self.on_board(self.food)
    }

    /// The state's invariant, which holds from the start on a board at least
    /// as wide as the starting snake: the snake lies on the board, has at
    /// least two cells, and the erased tail lies on the board too.
    pub open spec fn wf(self) -> bool {
        &&& self.laid_out()
        &&& self.snake.len() >= 2
        &&& (self.last_tail matches Some(t) ==> self.on_board(t))
    }

    pub open spec fn head(self) -> Point {
        self.snake[0]
    }

    /// Where the head goes on the next move.
    pub open spec fn next_head(self) -> Point {
        advance(self.head(), self.direction, self.width as int, self.height as int)
    }

    /// The snake has a head and its next cell lies within 16-bit coordinates.
    pub open spec fn can_step(self) -> bool {
        self.snake.len() >= 1 && advance_defined(
            self.head(),
            self.direction,
            self.width as int,
            self.height as int,
        )
    }

    /// The next move eats food lying on the last cell the snake does not
    /// cover, so that no free cell is left to put new food on.
    pub open spec fn eats_last_free_cell(self) -> bool {
        let h = self.next_head();
        &&& h == self.food
        &&& !self.snake.contains(h)
        &&& !free_cell_exists(seq![h] + self.snake, self.width as int, self.height as int)
    }

    /// Everything a redraw paints lies left of terminal column 65536, and the
    /// snake has at least two cells.
    pub open spec fn drawable(self) -> bool {
        &&& self.snake.len() >= 2
        &&& self.food.x < 0x8000
        &&& forall|i: int| 0 <= i < self.snake.len() ==> (#[trigger] self.snake[i]).x < 0x8000
        &&& (self.last_tail matches Some(t) ==> t.x < 0x8000)
    }

    /// The score shown on screen: the snake's length less two.
    pub open spec fn score(self) -> int {
        self.snake.len() - 2
    }

    /// The state after a move that did not run into the snake: the head
    /// advances one cell; on the food the snake grows by that cell and the
    /// food goes elsewhere, otherwise the tail cell is given up and remembered.
    pub open spec fn moved(self, after: StateView) -> bool {
        let h = self.next_head();
        &&& after.direction == self.direction
        &&& after.width == self.width
        &&& after.height == self.height
        &&& if h == self.food {
            &&& after.snake == seq![h] + self.snake
            &&& after.last_tail is None
            &&& food_choice(
                after.snake,
                self.width as int,
                self.height as int,
                self.food,
                after.food,
            )
        } else {
            &&& after.snake == seq![h] + self.snake.drop_last()
            &&& after.last_tail == Some(self.snake.last())
            &&& after.food == self.food
        }
    }

    /// What a redraw paints, in order: the blank over the cell the tail left,
    /// the food, the snake head first, and the score line at the top left.
    pub open spec fn frame(self) -> Seq<Stroke> {
        let erase = match self.last_tail {
            Some(t) => seq![stroke_at(t, Paint::Blank)],
            None => Seq::<Stroke>::empty(),
        };
        erase + seq![stroke_at(self.food, Paint::Food)] + Seq::new(
            self.snake.len(),
            |i: int| stroke_at(self.snake[i], segment_paint(i)),
        ) + seq![Stroke { col: 0, row: 0, paint: Paint::Score((self.snake.len() - 2) as usize) }]
    }
}

/// A game of snake on a wrapping board: the snake, where it heads, the food,
/// the board's size, and the cell its tail left on the last move.
pub struct State {
    snake: VecDeque<Point>,
    direction: Direction,
    food: Point,
    size: (u16, u16),
    last_tail: Option<Point>,
}

impl View for State {
    type V = StateView;

    closed spec fn view(&self) -> StateView {
        StateView {
            snake: self.snake@,
            direction: self.direction,
            food: self.food,
            width: self.size.0,
            height: self.size.1,
            last_tail: self.last_tail,
        }
    }
}

impl State {
    /// A fresh game on a board of `size.0` columns and `size.1` rows: the
    /// snake lies along the top row with its head at column 8, heading right,
    /// and the food sits in the middle of the board. The state is well formed
    /// when the board is at least as wide as the snake.
    pub fn new(size: (u16, u16)) -> (s: Self)
        ensures
            s@.snake == initial_snake(),
            s@.direction == Direction::Right,
            s@.food == (Point { x: size.0 / 2, y: size.1 / 2 }),
            s@.width == size.0,
            s@.height == size.1,
            s@.last_tail is None,
            size.0 >= 9 && size.1 >= 1 ==> s@.wf(),
    {
        let mut snake = VecDeque::new();
        snake.push_front(Point { x: 0, y: 0 });
        snake.push_front(Point { x: 1, y: 0 });
        snake.push_front(Point { x: 2, y: 0 });
        snake.push_front(Point { x: 3, y: 0 });
        snake.push_front(Point { x: 4, y: 0 });
        snake.push_front(Point { x: 5, y: 0 });
        snake.push_front(Point { x: 6, y: 0 });
        snake.push_front(Point { x: 7, y: 0 });
        snake.push_front(Point { x: 8, y: 0 });
        assert(snake@ =~= initial_snake());

        let direction = Direction::Right;
        let food = Point { x: size.0 / 2, y: size.1 / 2 };

        let s = State { snake, direction, food, size, last_tail: None };
        proof {
            if size.0 >= 9 && size.1 >= 1 {
                assert forall|i: int| 0 <= i < s@.snake.len() - 1 implies #[trigger] s@.linked(
                    i,
                ) by {
                    vstd::arithmetic::div_mod::lemma_small_mod((8 - i) as nat, size.0 as nat);
                    assert(step(s@.snake[i + 1], Direction::Right, size.0 as int, size.1 as int)
                        == s@.snake[i]);
                }
            }
        }
        s
    }

    /// Whether the snake covers cell `p`.
    pub fn occupies(&self, p: Point) -> (r: bool)
        ensures
            r == self@.snake.contains(p),
    {
        let n = self.snake.len();
        let mut i: usize = 0;
        while i < n
            invariant
                n == self.snake@.len(),
                i <= n,
                forall|j: int| 0 <= j < i ==> self.snake@[j] != p,
            decreases n - i,
        {
            if self.snake[i] == p {
                return true;
            }
            i += 1;
        }
        false
    }

    /// The cells of the board that the snake does not cover, row by row.
    pub fn free_cells(&self) -> (cells: Vec<Point>)
        ensures
            cells@ == free_cells_of(self@.snake, self@.width as int, self@.height as int),
            forall|p: Point|
                #![trigger cells@.contains(p)]
                cells@.contains(p) <==> (self@.on_board(p) && !self@.snake.contains(p)),
            forall|i: int, j: int|
                0 <= i < j < cells@.len() ==> precedes(#[trigger] cells@[i], #[trigger] cells@[j]),
    {
        let width = self.size.0;
        let height = self.size.1;
        let ghost snake = self@.snake;
        let ghost all = free_cells_of(snake, width as int, height as int);
        let mut cells: Vec<Point> = Vec::new();
        let mut y: u16 = 0;
        while y < height
            invariant
                width == self@.width,
                height == self@.height,
                snake == self@.snake,
                all == free_cells_of(snake, width as int, height as int),
                y <= height,
                cells@ + free_from(snake, width as int, height as int, 0, y as int) == all,
                forall|p: Point|
                    #![trigger cells@.contains(p)]
                    cells@.contains(p) <==> (self@.on_board(p) && !self@.snake.contains(p)
                        && p.y < y),
                forall|i: int, j: int|
                    0 <= i < j < cells@.len() ==> precedes(
                        #[trigger] cells@[i],
                        #[trigger] cells@[j],
                    ),
                forall|i: int| 0 <= i < cells@.len() ==> (#[trigger] cells@[i]).y < y,
            decreases height - y,
        {
            let mut x: u16 = 0;
            while x < width
                invariant
                    width == self@.width,
                    height == self@.height,
                    snake == self@.snake,
                    all == free_cells_of(snake, width as int, height as int),
                    y < height,
                    x <= width,
                    cells@ + free_from(snake, width as int, height as int, x as int, y as int)
                        == all,
                    forall|p: Point|
                        #![trigger cells@.contains(p)]
                        cells@.contains(p) <==> (self@.on_board(p) && !self@.snake.contains(p)
                            && precedes_cell(p, x as int, y as int)),
                    forall|i: int, j: int|
                        0 <= i < j < cells@.len() ==> precedes(
                            #[trigger] cells@[i],
                            #[trigger] cells@[j],
                        ),
                    forall|i: int|
                        0 <= i < cells@.len() ==> precedes_cell(
                            #[trigger] cells@[i],
                            x as int,
                            y as int,
                        ),
                decreases width - x,
            {
                let c = Point { x, y };
                let ghost before = cells@;
                let ghost rest = free_from(snake, width as int, height as int, x + 1, y as int);
                assert(free_from(snake, width as int, height as int, x as int, y as int) == (if snake.contains(c) {
                    rest
                } else {
                    seq![c] + rest
                }));
                if !self.occupies(c) {
                    cells.push(c);
                    assert(cells@ + rest =~= before + (seq![c] + rest));
                    assert forall|p: Point| #![trigger cells@.contains(p)]
                        cells@.contains(p) <==> (before.contains(p) || p == c) by {
                        if p == c {
                            assert(cells@[before.len() as int] == c);
                        }
                        if before.contains(p) {
                            let k = choose|k: int| 0 <= k < before.len() && before[k] == p;
                            assert(cells@[k] == p);
                        }
                    }
                }
                x += 1;
            }
            assert(free_from(snake, width as int, height as int, width as int, y as int)
                == free_from(snake, width as int, height as int, 0, y + 1));
            y += 1;
        }
        assert(free_from(snake, width as int, height as int, 0, height as int) =~= Seq::<
            Point,
        >::empty());
        assert(cells@ =~= all);
        cells
    }

    /// Puts the food on the `k`th cell, counting from zero row by row, among
    /// those the snake does not cover.
    pub fn place_food_at(&mut self, k: usize)
        requires
            k < free_cells_of(old(self)@.snake, old(self)@.width as int, old(self)@.height as int).len(),
        ensures
            final(self)@.food == free_cells_of(
                old(self)@.snake,
                old(self)@.width as int,
                old(self)@.height as int,
            )[k as int],
            final(self)@.snake == old(self)@.snake,
            final(self)@.direction == old(self)@.direction,
            final(self)@.width == old(self)@.width,
            final(self)@.height == old(self)@.height,
            final(self)@.last_tail == old(self)@.last_tail,
    {
        let cells = self.free_cells();
        self.food = cells[k];
    }

    /// Moves the food to a cell drawn at random among those the snake does
    /// not cover: one index is drawn below their number, and the food goes to
    /// that cell, counting row by row. There must be such a cell.
    pub fn set_random_food_location(&mut self)
        requires
            free_cell_exists(old(self)@.snake, old(self)@.width as int, old(self)@.height as int),
        ensures
            final(self)@.snake == old(self)@.snake,
            final(self)@.direction == old(self)@.direction,
            final(self)@.width == old(self)@.width,
            final(self)@.height == old(self)@.height,
            final(self)@.last_tail == old(self)@.last_tail,
            final(self)@.on_board(final(self)@.food),
            !old(self)@.snake.contains(final(self)@.food),
            exists|k: int|
                0 <= k < free_cells_of(
                    old(self)@.snake,
                    old(self)@.width as int,
                    old(self)@.height as int,
                ).len() && final(self)@.food == #[trigger] free_cells_of(
                    old(self)@.snake,
                    old(self)@.width as int,
                    old(self)@.height as int,
                )[k],
            old(self)@.wf() ==> final(self)@.wf(),
    {
        let cells = self.free_cells();
        proof {
            let p = choose|p: Point|
                on_board(p, self@.width as int, self@.height as int) && !self@.snake.contains(p);
            assert(cells@.contains(p));
        }
        let ghost before = self@;
        let k = random_below(cells.len());
        self.place_food_at(k);
        assert(cells@.contains(cells@[k as int]));
        assert forall|i: int| 0 <= i < self@.snake.len() - 1 implies #[trigger] self@.linked(i) == before.linked(i) by {}
    }

    /// Whether the snake has a head that can move on within 16-bit
    /// coordinates.
    pub fn can_step(&self) -> (r: bool)
        ensures
            r == self@.can_step(),
    {
        if self.snake.len() == 0 {
            return false;
        }
        can_advance(self.snake[0], self.direction, self.size.0, self.size.1)
    }

    /// Whether the next move eats food lying on the last free cell.
    pub fn eats_last_free_cell(&self) -> (r: bool)
        requires
            self@.can_step(),
        ensures
            r == self@.eats_last_free_cell(),
    {
        let nh = neighbour(self.snake[0], self.direction, self.size.0, self.size.1);
        if nh != self.food || self.occupies(nh) {
            return false;
        }
        let cells = self.free_cells();
        let r = if cells.len() == 0 {
            true
        } else if cells.len() == 1 {
            cells[0] == nh
        } else {
            false
        };
        proof {
            let t = seq![nh] + self@.snake;
            let w = self@.width as int;
            let h = self@.height as int;
            assert(t[0] == nh);
            if r {
                assert forall|p: Point| on_board(p, w, h) implies #[trigger] t.contains(p) by {
                    if !self@.snake.contains(p) {
                        assert(cells@.contains(p));
                        let k = choose|k: int| 0 <= k < cells@.len() && cells@[k] == p;
                        assert(k == 0);
                    } else {
                        let i = choose|i: int| 0 <= i < self@.snake.len() && self@.snake[i] == p;
                        assert(t[i + 1] == p);
                    }
                }
            } else {
                let q = if cells@[0] != nh {
                    cells@[0]
                } else {
                    cells@[1]
                };
                if cells@.len() >= 2 {
                    assert(precedes(cells@[0], cells@[1]));
                }
                assert(cells@.contains(q));
                assert(!t.contains(q)) by {
                    if t.contains(q) {
                        let i = choose|i: int| 0 <= i < t.len() && t[i] == q;
                        if i > 0 {
                            assert(self@.snake[i - 1] == q);
                        }
                    }
                }
            }
        }
        r
    }

    /// Whether a redraw stays within terminal columns: the snake has at least
    /// two cells and every painted cell lies left of column 32768.
    pub fn drawable(&self) -> (r: bool)
        ensures
            r == self@.drawable(),
    {
        let n = self.snake.len();
        if n < 2 || self.food.x >= 0x8000 {
            return false;
        }
        if let Some(t) = self.last_tail {
            if t.x >= 0x8000 {
                return false;
            }
        }
        let mut i: usize = 0;
        while i < n
            invariant
                n == self@.snake.len(),
                i <= n,
                forall|j: int| 0 <= j < i ==> (#[trigger] self@.snake[j]).x < 0x8000,
            decreases n - i,
        {
            if self.snake[i].x >= 0x8000 {
                return false;
            }
            i += 1;
        }
        true
    }

    /// Advances the snake one cell in its direction, wrapping at the edges.
    /// Returns `false`, changing nothing, when the new head cell is already
    /// covered by the snake (the game is lost); otherwise the snake moves,
    /// growing when it reaches the food, and `true` is returned.
    pub fn move_forward(&mut self) -> (alive: bool)
        requires
            old(self)@.snake.len() >= 2,
            old(self)@.can_step(),
            !old(self)@.eats_last_free_cell(),
        ensures
            final(self)@.snake.len() >= 2,
            alive == !old(self)@.snake.contains(old(self)@.next_head()),
            !alive ==> final(self)@ == old(self)@,
            alive ==> old(self)@.moved(final(self)@),
            old(self)@.wf() ==> final(self)@.wf(),
            alive && !old(self)@.snake.contains(old(self)@.food) ==> !final(self)@.snake.contains(
                final(self)@.food,
            ),
    {
        let ghost before = self@;
        let new_front = neighbour(self.snake[0], self.direction, self.size.0, self.size.1);

        if self.occupies(new_front) {
            return false;
        }

        self.snake.push_front(new_front);
        assert(self.snake@ =~= seq![new_front] + before.snake);

        if new_front == self.food {
            self.set_random_food_location();
            self.last_tail = None;
        } else {
            let ghost grown = self.snake@;
            self.last_tail = self.snake.pop_back();
            assert(self.snake@ =~= seq![new_front] + before.snake.drop_last());
            assert(grown[grown.len() - 1] == before.snake.last());
            proof {
                if !before.snake.contains(before.food) && self@.snake.contains(self@.food) {
                    let i = choose|i: int|
                        0 <= i < self@.snake.len() && self@.snake[i] == self@.food;
                    assert(i > 0);
                    assert(before.snake[i - 1] == self@.food);
                }
            }
        }
        proof {
            if before.wf() {
                lemma_moved_keeps_layout(before, self@);
            }
        }
        true
    }

    /// Turns the snake to `d`, unless `d` points straight back, in which
    /// case the snake keeps its direction.
    pub fn steer(&mut self, d: Direction)
        ensures
            old(self)@.wf() ==> final(self)@.wf(),
            final(self)@.direction == (if d == opposite(old(self)@.direction) {
                old(self)@.direction
            } else {
                d
            }),
            final(self)@.snake == old(self)@.snake,
            final(self)@.food == old(self)@.food,
            final(self)@.width == old(self)@.width,
            final(self)@.height == old(self)@.height,
            final(self)@.last_tail == old(self)@.last_tail,
    {
        let ghost before = self@;
        if !is_opposite(self.direction, d) {
            self.direction = d;
        }
        assert forall|i: int| 0 <= i < self@.snake.len() - 1 implies #[trigger] self@.linked(i) == before.linked(i) by {}
    }

    /// The score: the snake's length less two.
    pub fn score(&self) -> (r: usize)
        requires
            self@.snake.len() >= 2,
        ensures
            r == self@.score(),
    {
        self.snake.len() - 2
    }

    /// What a redraw paints after a move, in order: a blank over the cell the
    /// tail left (when it left one), the food, the snake's cells head first,
    /// and the score line. Board column `x` is terminal column `2 * x`.
    pub fn frame(&self) -> (strokes: Vec<Stroke>)
        requires
            self@.drawable(),
        ensures
            strokes@ == self@.frame(),
    {
        let mut strokes: Vec<Stroke> = Vec::new();
        if let Some(tail) = self.last_tail {
            strokes.push(Stroke { col: tail.x * 2, row: tail.y, paint: Paint::Blank });
        }
        strokes.push(Stroke { col: self.food.x * 2, row: self.food.y, paint: Paint::Food });
        let ghost lead = strokes@;
        let n = self.snake.len();
        let mut i: usize = 0;
        while i < n
            invariant
                n == self@.snake.len(),
                i <= n,
                self@.drawable(),
                strokes@ == lead + Seq::new(
                    i as nat,
                    |k: int| stroke_at(self@.snake[k], segment_paint(k)),
                ),
            decreases n - i,
        {
            let point = self.snake[i];
            assert(self@.snake[i as int].x < 0x8000);
            let paint = if i == 0 {
                Paint::Head
            } else {
                Paint::Body
            };
            strokes.push(Stroke { col: point.x * 2, row: point.y, paint });
            assert(strokes@ =~= lead + Seq::new(
                (i + 1) as nat,
                |k: int| stroke_at(self@.snake[k], segment_paint(k)),
            ));
            i += 1;
        }
        strokes.push(Stroke { col: 0, row: 0, paint: Paint::Score(n - 2) });
        assert(strokes@ =~= self@.frame());
        strokes
    }

    /// The direction the snake heads in.
    pub fn direction(&self) -> (d: Direction)
        ensures
            d == self@.direction,
    {
        self.direction
    }

    /// Where the food lies.
    pub fn food(&self) -> (p: Point)
        ensures
            p == self@.food,
    {
        self.food
    }

    /// The board's columns and rows.
    pub fn size(&self) -> (size: (u16, u16))
        ensures
            size.0 == self@.width,
            size.1 == self@.height,
    {
        self.size
    }

    /// The cell the tail left on the last move, if the snake did not grow.
    pub fn last_tail(&self) -> (t: Option<Point>)
        ensures
            t == self@.last_tail,
    {
        self.last_tail
    }

    /// The snake's cells, head first.
    pub fn cells(&self) -> (cells: Vec<Point>)
        ensures
            cells@ == self@.snake,
    {
        let n = self.snake.len();
        let mut cells: Vec<Point> = Vec::new();
        let mut i: usize = 0;
        while i < n
            invariant
                n == self@.snake.len(),
                i <= n,
                cells@ == self@.snake.take(i as int),
            decreases n - i,
        {
            cells.push(self.snake[i]);
            assert(cells@ =~= self@.snake.take(i + 1));
            i += 1;
        }
        assert(cells@ =~= self@.snake);
        cells
    }
}

/// A move never lowers the score: it rises by one exactly when the head
/// reaches the food, and stays the same otherwise.
pub proof fn law_score_grows_only_by_eating(before: StateView, after: StateView)
    requires
        before.snake.len() >= 1,
        before.moved(after),
    ensures
        after.score() == before.score() + (if before.next_head() == before.food {
            1int
        } else {
            0int
        }),
        after.score() >= before.score(),
{
}

/// After a move, the snake's body is the old snake shifted back by one cell:
/// every old cell is still covered except, when no food was eaten, the old
/// tail.
pub proof fn law_body_follows_head(before: StateView, after: StateView, i: int)
    requires
        before.moved(after),
        0 <= i < before.snake.len(),
        before.next_head() != before.food ==> i < before.snake.len() - 1,
    ensures
        after.snake[i + 1] == before.snake[i],
{
}

/// A move that does not run into the snake keeps the snake on the board, and
/// the cell its tail left lies on the board too.
proof fn lemma_moved_keeps_layout(before: StateView, after: StateView)
    requires
        before.laid_out(),
        !before.snake.contains(before.next_head()),
        before.moved(after),
    ensures
        after.laid_out(),
        after.last_tail matches Some(t) ==> after.on_board(t),
        after.snake.len() >= before.snake.len(),
{
    let w = before.width as int;
    let h = before.height as int;
    let nh = before.next_head();
    lemma_advance_on_board(before.head(), before.direction, w, h);
    law_step_stays_on_board(before.head(), before.direction, w, h);
    assert(adjacent(before.head(), nh, w, h)) by {
        match before.direction {
            Direction::Up => {},
            Direction::Down => {},
            Direction::Right => {},
            Direction::Left => {},
        }
    }
    let n = before.snake.len();
    assert forall|i: int| 0 <= i < after.snake.len() implies after.on_board(
        #[trigger] after.snake[i],
    ) by {
        if i > 0 {
            assert(after.snake[i] == before.snake[i - 1]);
        }
    }
    assert forall|i: int, j: int| 0 <= i < j < after.snake.len() implies #[trigger] after.snake[i]
        != #[trigger] after.snake[j] by {
        assert(after.snake[j] == before.snake[j - 1]);
        if i == 0 {
            assert(before.snake.contains(before.snake[j - 1]));
        } else {
            assert(after.snake[i] == before.snake[i - 1]);
        }
    }
    assert forall|i: int| 0 <= i < after.snake.len() - 1 implies #[trigger] after.linked(i) by {
        assert(after.snake[i + 1] == before.snake[i]);
        if i > 0 {
            assert(after.snake[i] == before.snake[i - 1]);
            assert(before.linked(i - 1));
        }
    }
}

/// The cells of row `y` left of column `width`.
pub open spec fn row_cells(y: int, width: int) -> Set<Point> {
    Set::new(|p: Point| p.y == y && p.x < width)
}

/// All cells of a board of `width` columns and `height` rows.
pub open spec fn board_cells(width: int, height: int) -> Set<Point> {
    Set::new(|p: Point| on_board(p, width, height))
}

proof fn lemma_row_cells_len(y: int, width: int)
    requires
        0 <= y < 0x10000,
        0 <= width <= 0x10000,
    ensures
        row_cells(y, width).finite(),
        row_cells(y, width).len() == width,
    decreases width,
{
    if width == 0 {
        assert(row_cells(y, width) =~= Set::empty());
    } else {
        lemma_row_cells_len(y, width - 1);
        let q = Point { x: (width - 1) as u16, y: y as u16 };
        assert(row_cells(y, width) =~= row_cells(y, width - 1).insert(q));
    }
}

proof fn lemma_board_cells_len(width: int, height: int)
    requires
        0 <= width <= 0x10000,
        0 <= height <= 0x10000,
    ensures
        board_cells(width, height).finite(),
        board_cells(width, height).len() == width * height,
    decreases height,
{
    if height == 0 {
        assert(board_cells(width, height) =~= Set::empty());
    } else {
        lemma_board_cells_len(width, height - 1);
        lemma_row_cells_len(height - 1, width);
        let upper = board_cells(width, height - 1);
        let last = row_cells(height - 1, width);
        assert(board_cells(width, height) =~= upper + last);
        assert(upper.disjoint(last));
        vstd::set_lib::lemma_set_disjoint_lens(upper, last);
        assert(width * (height - 1) + width == width * height) by (nonlinear_arith);
    }
}

/// A sequence of distinct cells that covers the whole board is at least as
/// long as the board has cells.
proof fn lemma_cover_len(t: Seq<Point>, width: int, height: int)
    requires
        0 <= width <= 0x10000,
        0 <= height <= 0x10000,
        t.no_duplicates(),
        forall|p: Point| on_board(p, width, height) ==> #[trigger] t.contains(p),
    ensures
        t.len() >= width * height,
{
    lemma_board_cells_len(width, height);
    t.unique_seq_to_set();
    assert(board_cells(width, height).subset_of(t.to_set()));
    vstd::set_lib::lemma_len_subset(board_cells(width, height), t.to_set());
}

/// While the snake is shorter than the board has cells less one, eating
/// always leaves a free cell for the new food.
pub proof fn law_short_snake_leaves_room(s: StateView)
    requires
        s.laid_out(),
        s.snake.len() + 1 < s.width * s.height,
    ensures
        !s.snake.contains(s.next_head()) ==> free_cell_exists(
            seq![s.next_head()] + s.snake,
            s.width as int,
            s.height as int,
        ),
        !s.eats_last_free_cell(),
{
    let w = s.width as int;
    let h = s.height as int;
    let nh = s.next_head();
    let t = seq![nh] + s.snake;
    lemma_advance_on_board(s.head(), s.direction, w, h);
    if !s.snake.contains(nh) && !free_cell_exists(t, w, h) {
        assert forall|i: int, j: int| 0 <= i < t.len() && 0 <= j < t.len() && i != j implies t[i]
            != t[j] by {
            if i == 0 {
                assert(s.snake.contains(t[j]));
            } else if j == 0 {
                assert(s.snake.contains(t[i]));
            } else if i < j {
                assert(s.snake[i - 1] != s.snake[j - 1]);
            } else {
                assert(s.snake[j - 1] != s.snake[i - 1]);
            }
        }
        assert forall|p: Point| on_board(p, w, h) implies #[trigger] t.contains(p) by {}
        lemma_cover_len(t, w, h);
    }
}

/// A snake laid out on the board stays so, together with food lying off the
/// snake, on every turn of play while it is shorter than the board less one
/// cell (and the full invariant `wf` is kept too): a lost move leaves the
/// state as it was, and a move grows the snake by at most one cell, puts the
/// new head a step from the old one, and keeps the rest of the snake as the
/// front of the old one.
pub proof fn law_move_keeps_invariant(before: StateView, after: StateView)
    requires
        before.laid_out(),
        !before.snake.contains(before.food),
        before.snake.len() + 1 < before.width * before.height,
        after == before || (!before.snake.contains(before.next_head()) && before.moved(after)),
    ensures
        after.laid_out(),
        before.wf() ==> after.wf(),
        !after.snake.contains(after.food),
        before.snake.len() <= after.snake.len() <= before.snake.len() + 1,
        after != before ==> adjacent(
            before.snake[0],
            after.snake[0],
            before.width as int,
            before.height as int,
        ),
        after != before ==> after.snake.drop_first() == before.snake.take(
            after.snake.len() - 1,
        ),
{
    if after != before {
        let w = before.width as int;
        let h = before.height as int;
        let nh = before.next_head();
        lemma_moved_keeps_layout(before, after);
        law_short_snake_leaves_room(before);
        lemma_advance_on_board(before.head(), before.direction, w, h);
        assert(adjacent(before.head(), nh, w, h)) by {
            match before.direction {
                Direction::Up => {},
                Direction::Down => {},
                Direction::Right => {},
                Direction::Left => {},
            }
        }
        assert(after.snake.drop_first() =~= before.snake.take(after.snake.len() - 1));
        if nh != before.food && after.snake.contains(after.food) {
            let i = choose|i: int| 0 <= i < after.snake.len() && after.snake[i] == after.food;
            assert(before.snake[i - 1] == before.food);
        }
    }
}

/// A redraw paints every board cell `p` it touches at terminal column
/// `2 * p.x` and row `p.y`: first two blanks over the cell the tail left, when
/// it left one, then the food, then the snake's cells from the head back, the
/// head painted as such and the rest as body, and last the score, the
/// snake's length less two, at the top left corner.
pub proof fn law_frame_paints_each_cell_at_its_columns(s: StateView)
    requires
        s.drawable(),
    ensures
        ({
            let f = s.frame();
            let off: int = if s.last_tail is Some {
                1
            } else {
                0
            };
            &&& f.len() == off + s.snake.len() + 2
            &&& s.last_tail matches Some(t) ==> f[0].col == 2 * t.x && f[0].row == t.y
                && f[0].paint == Paint::Blank
            &&& f[off].col == 2 * s.food.x && f[off].row == s.food.y && f[off].paint
                == Paint::Food
            &&& forall|i: int|
                0 <= i < s.snake.len() ==> (#[trigger] f[off + 1 + i]).col == 2 * s.snake[i].x
                    && f[off + 1 + i].row == s.snake[i].y
            &&& f[off + 1].paint == Paint::Head
            &&& forall|i: int| 1 <= i < s.snake.len() ==> (#[trigger] f[off + 1 + i]).paint == Paint::Body
            &&& f[off + 1 + s.snake.len()].col == 0
            &&& f[off + 1 + s.snake.len()].row == 0
            &&& f[off + 1 + s.snake.len()].paint == Paint::Score((s.snake.len() - 2) as usize)
        }),
{
    let f = s.frame();
    let off: int = if s.last_tail is Some {
        1
    } else {
        0
    };
    if let Some(t) = s.last_tail {
        assert(t.x < 0x8000);
    }
    assert forall|i: int| 0 <= i < s.snake.len() implies (#[trigger] f[off + 1 + i]).col == 2
        * s.snake[i].x && f[off + 1 + i].row == s.snake[i].y by {
        assert(s.snake[i].x < 0x8000);
    }
}

/// The cells `free_from` lists from column `x` of row `y` are exactly the free
/// cells at or after that place, row by row, in strictly increasing order.
proof fn lemma_free_from_cells(snake: Seq<Point>, width: int, height: int, x: int, y: int)
    requires
        0 <= width <= 0x10000,
        0 <= height <= 0x10000,
        0 <= x,
        0 <= y,
    ensures
        forall|p: Point|
            #[trigger] free_from(snake, width, height, x, y).contains(p) <==> (on_board(
                p,
                width,
                height,
            ) && !snake.contains(p) && !precedes_cell(p, x, y)),
        forall|i: int, j: int|
            0 <= i < j < free_from(snake, width, height, x, y).len() ==> precedes(
                #[trigger] free_from(snake, width, height, x, y)[i],
                #[trigger] free_from(snake, width, height, x, y)[j],
            ),
    decreases height - y, width - x,
{
    let f = free_from(snake, width, height, x, y);
    if y >= height {
        assert(f =~= Seq::<Point>::empty());
    } else if x >= width {
        lemma_free_from_cells(snake, width, height, 0, y + 1);
        assert(f == free_from(snake, width, height, 0, y + 1));
        assert forall|p: Point| #[trigger] f.contains(p) <==> (on_board(p, width, height)
            && !snake.contains(p) && !precedes_cell(p, x, y)) by {
            if on_board(p, width, height) {
                assert(precedes_cell(p, x, y) == precedes_cell(p, 0, y + 1));
            }
        }
    } else {
        lemma_free_from_cells(snake, width, height, x + 1, y);
        let c = Point { x: x as u16, y: y as u16 };
        let rest = free_from(snake, width, height, x + 1, y);
        if snake.contains(c) {
            assert(f == rest);
        } else {
            assert(f == seq![c] + rest);
            assert forall|p: Point| #[trigger] f.contains(p) <==> (p == c || rest.contains(p)) by {
                if p == c {
                    assert(f[0] == c);
                }
                if rest.contains(p) {
                    let k = choose|k: int| 0 <= k < rest.len() && rest[k] == p;
                    assert(f[k + 1] == p);
                }
                if f.contains(p) {
                    let k = choose|k: int| 0 <= k < f.len() && f[k] == p;
                    if k > 0 {
                        assert(rest[k - 1] == p);
                    }
                }
            }
            assert forall|i: int, j: int| 0 <= i < j < f.len() implies precedes(
                #[trigger] f[i],
                #[trigger] f[j],
            ) by {
                assert(f[j] == rest[j - 1]);
                assert(rest.contains(rest[j - 1]));
                if i > 0 {
                    assert(f[i] == rest[i - 1]);
                }
            }
        }
    }
}

/// Every free cell can receive the food: each cell of the board that the
/// snake does not cover is listed exactly once among the free cells, so one
/// drawn index selects it, and every listed cell is such a cell.
pub proof fn law_every_free_cell_can_receive_food(snake: Seq<Point>, width: int, height: int)
    requires
        0 <= width <= 0x10000,
        0 <= height <= 0x10000,
    ensures
        forall|p: Point|
            on_board(p, width, height) && !snake.contains(p) ==> exists|k: int|
                0 <= k < free_cells_of(snake, width, height).len() && #[trigger] free_cells_of(
                    snake,
                    width,
                    height,
                )[k] == p,
        forall|k: int|
            0 <= k < free_cells_of(snake, width, height).len() ==> on_board(
                #[trigger] free_cells_of(snake, width, height)[k],
                width,
                height,
            ) && !snake.contains(free_cells_of(snake, width, height)[k]),
        forall|i: int, j: int|
            0 <= i < j < free_cells_of(snake, width, height).len() ==> #[trigger] free_cells_of(
                snake,
                width,
                height,
            )[i] != #[trigger] free_cells_of(snake, width, height)[j],
{
    lemma_free_from_cells(snake, width, height, 0, 0);
    let f = free_cells_of(snake, width, height);
    assert forall|p: Point| on_board(p, width, height) && !snake.contains(p) implies exists|k: int|
        0 <= k < f.len() && #[trigger] f[k] == p by {
        assert(f.contains(p));
    }
    assert forall|k: int| 0 <= k < f.len() implies on_board(#[trigger] f[k], width, height)
        && !snake.contains(f[k]) by {
        assert(f.contains(f[k]));
    }
    assert forall|i: int, j: int| 0 <= i < j < f.len() implies #[trigger] f[i] != #[trigger] f[j] by {
        assert(precedes(f[i], f[j]));
    }
}

} // verus!
