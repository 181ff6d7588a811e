use rusty_snake::geometry::{neighbour, Direction, Point};
use rusty_snake::snake::{Paint, State, Stroke};

fn pt(x: u16, y: u16) -> Point {
    Point { x, y }
}

fn starting_cells() -> Vec<Point> {
    (0..9u16).rev().map(|x| pt(x, 0)).collect()
}

#[test]
fn new_lays_the_snake_along_the_top_row() {
    let s = State::new((20, 10));
    assert_eq!(s.cells(), starting_cells());
    assert_eq!(s.direction(), Direction::Right);
    assert_eq!(s.food(), pt(10, 5));
    assert_eq!(s.size(), (20, 10));
    assert_eq!(s.last_tail(), None);
    assert_eq!(s.score(), 7);
}

#[test]
fn a_move_advances_the_head_and_drops_the_tail() {
    let mut s = State::new((20, 10));
    assert!(s.move_forward());
    let cells = s.cells();
    assert_eq!(cells.len(), 9);
    assert_eq!(cells[0], pt(9, 0));
    assert_eq!(cells[8], pt(1, 0));
    assert_eq!(s.last_tail(), Some(pt(0, 0)));
    assert_eq!(s.food(), pt(10, 5));
    assert_eq!(s.score(), 7);
}

#[test]
fn the_head_wraps_at_the_right_edge() {
    let mut s = State::new((10, 3));
    assert!(s.move_forward());
    assert!(s.move_forward());
    assert_eq!(s.cells()[0], pt(0, 0));
    assert_eq!(s.last_tail(), Some(pt(1, 0)));
}

#[test]
fn the_head_wraps_at_the_top_edge() {
    let mut s = State::new((20, 7));
    s.steer(Direction::Up);
    assert!(s.move_forward());
    assert_eq!(s.cells()[0], pt(8, 6));
}

#[test]
fn running_into_the_body_loses_and_changes_nothing() {
    let mut s = State::new((20, 10));
    s.steer(Direction::Down);
    assert!(s.move_forward());
    s.steer(Direction::Left);
    assert!(s.move_forward());
    s.steer(Direction::Up);
    let before = s.cells();
    let tail = s.last_tail();
    assert!(!s.move_forward());
    assert_eq!(s.cells(), before);
    assert_eq!(s.last_tail(), tail);
    assert_eq!(s.direction(), Direction::Up);
}

#[test]
fn moving_into_the_tail_cell_is_a_collision() {
    // On a board exactly as wide as the snake, the head wraps onto the tail.
    let mut s = State::new((9, 4));
    assert!(!s.move_forward());
    assert_eq!(s.cells(), starting_cells());
}

#[test]
fn eating_grows_the_snake_and_moves_the_food() {
    let mut s = State::new((20, 1));
    assert_eq!(s.food(), pt(10, 0));
    assert!(s.move_forward());
    assert!(s.move_forward());
    let cells = s.cells();
    assert_eq!(cells.len(), 10);
    assert_eq!(cells[0], pt(10, 0));
    assert_eq!(s.last_tail(), None);
    assert_eq!(s.score(), 8);
    let food = s.food();
    assert!(food.x < 20 && food.y < 1);
    assert!(!cells.contains(&food));
}

#[test]
fn the_snake_cannot_turn_straight_back() {
    let mut s = State::new((20, 10));
    s.steer(Direction::Left);
    assert_eq!(s.direction(), Direction::Right);
    s.steer(Direction::Up);
    assert_eq!(s.direction(), Direction::Up);
    s.steer(Direction::Down);
    assert_eq!(s.direction(), Direction::Up);
    s.steer(Direction::Right);
    assert_eq!(s.direction(), Direction::Right);
}

#[test]
fn free_cells_lists_uncovered_cells_row_by_row() {
    let s = State::new((10, 2));
    let mut expected = vec![pt(9, 0)];
    for x in 0..10u16 {
        expected.push(pt(x, 1));
    }
    assert_eq!(s.free_cells(), expected);
}

#[test]
fn free_cells_is_empty_on_a_full_board() {
    let s = State::new((9, 1));
    assert!(s.free_cells().is_empty());
}

#[test]
fn food_goes_to_the_only_free_cell() {
    let mut s = State::new((10, 1));
    s.set_random_food_location();
    assert_eq!(s.food(), pt(9, 0));
    assert_eq!(s.cells(), starting_cells());
}

#[test]
fn food_lands_on_a_free_cell() {
    for _ in 0..50 {
        let mut s = State::new((12, 3));
        s.set_random_food_location();
        let f = s.food();
        assert!(f.x < 12 && f.y < 3);
        assert!(!s.cells().contains(&f));
    }
}

#[test]
fn occupies_reports_covered_cells() {
    let s = State::new((20, 10));
    assert!(s.occupies(pt(0, 0)));
    assert!(s.occupies(pt(8, 0)));
    assert!(!s.occupies(pt(9, 0)));
    assert!(!s.occupies(pt(0, 1)));
}

fn stroke(col: u16, row: u16, paint: Paint) -> Stroke {
    Stroke { col, row, paint }
}

#[test]
fn frame_of_a_fresh_round() {
    let s = State::new((20, 10));
    let mut expected = vec![stroke(20, 5, Paint::Food), stroke(16, 0, Paint::Head)];
    for x in (0..8u16).rev() {
        expected.push(stroke(2 * x, 0, Paint::Body));
    }
    expected.push(stroke(0, 0, Paint::Score(7)));
    assert_eq!(s.frame(), expected);
}

#[test]
fn frame_blanks_the_cell_the_tail_left() {
    let mut s = State::new((20, 10));
    assert!(s.move_forward());
    let f = s.frame();
    assert_eq!(f.len(), 12);
    assert_eq!(f[0], stroke(0, 0, Paint::Blank));
    assert_eq!(f[1], stroke(20, 5, Paint::Food));
    assert_eq!(f[2], stroke(18, 0, Paint::Head));
    assert_eq!(f[3], stroke(16, 0, Paint::Body));
    assert_eq!(f[11], stroke(0, 0, Paint::Score(7)));
}

#[test]
fn neighbour_moves_one_cell_and_wraps() {
    assert_eq!(neighbour(pt(3, 4), Direction::Up, 10, 8), pt(3, 3));
    assert_eq!(neighbour(pt(3, 0), Direction::Up, 10, 8), pt(3, 7));
    assert_eq!(neighbour(pt(3, 4), Direction::Down, 10, 8), pt(3, 5));
    assert_eq!(neighbour(pt(3, 7), Direction::Down, 10, 8), pt(3, 0));
    assert_eq!(neighbour(pt(3, 4), Direction::Right, 10, 8), pt(4, 4));
    assert_eq!(neighbour(pt(9, 4), Direction::Right, 10, 8), pt(0, 4));
    assert_eq!(neighbour(pt(3, 4), Direction::Left, 10, 8), pt(2, 4));
    assert_eq!(neighbour(pt(0, 4), Direction::Left, 10, 8), pt(9, 4));
    assert_eq!(neighbour(pt(0, 0), Direction::Right, 1, 1), pt(0, 0));
}

#[test]
fn opposite_steps_return_to_the_start() {
    let dirs = [Direction::Up, Direction::Down, Direction::Left, Direction::Right];
    let back = [Direction::Down, Direction::Up, Direction::Right, Direction::Left];
    for (d, b) in dirs.iter().zip(back.iter()) {
        for p in [pt(0, 0), pt(9, 7), pt(4, 3)] {
            assert_eq!(neighbour(neighbour(p, *d, 10, 8), *b, 10, 8), p);
        }
    }
}

#[test]
fn a_full_lap_returns_to_the_start() {
    let p = pt(3, 2);
    let mut q = p;
    for _ in 0..10 {
        q = neighbour(q, Direction::Right, 10, 8);
    }
    assert_eq!(q, p);
    for _ in 0..8 {
        q = neighbour(q, Direction::Up, 10, 8);
    }
    assert_eq!(q, p);
}

#[test]
fn new_builds_the_state_for_any_size() {
    let s = State::new((0, 0));
    assert_eq!(s.cells(), starting_cells());
    assert_eq!(s.direction(), Direction::Right);
    assert_eq!(s.food(), pt(0, 0));
    assert_eq!(s.size(), (0, 0));
    assert_eq!(s.last_tail(), None);
    assert!(!s.can_step());
    let s = State::new((3, 1));
    assert_eq!(s.food(), pt(1, 0));
    assert!(s.can_step());
}

#[test]
fn a_snake_wider_than_the_board_moves_on_past_its_edge() {
    let mut s = State::new((5, 3));
    assert!(s.can_step());
    assert!(!s.eats_last_free_cell());
    assert!(s.move_forward());
    assert_eq!(s.cells()[0], pt(9, 0));
    s.steer(Direction::Down);
    assert!(s.move_forward());
    assert_eq!(s.cells()[0], pt(9, 1));
}

#[test]
fn eating_the_last_free_cell_is_detected() {
    let mut s = State::new((10, 1));
    s.set_random_food_location();
    assert_eq!(s.food(), pt(9, 0));
    assert!(s.can_step());
    assert!(s.eats_last_free_cell());
    let s = State::new((11, 1));
    assert!(!s.eats_last_free_cell());
}

#[test]
fn place_food_at_counts_free_cells_row_by_row() {
    let mut s = State::new((10, 2));
    s.place_food_at(0);
    assert_eq!(s.food(), pt(9, 0));
    s.place_food_at(3);
    assert_eq!(s.food(), pt(2, 1));
    s.place_food_at(10);
    assert_eq!(s.food(), pt(9, 1));
}

#[test]
fn drawable_checks_painted_columns() {
    let s = State::new((20, 10));
    assert!(s.drawable());
    let mut s = State::new((65535, 1));
    assert!(s.drawable());
    s.place_food_at(32767 - 9);
    assert_eq!(s.food(), pt(32767, 0));
    assert!(s.drawable());
    s.place_food_at(32768 - 9);
    assert_eq!(s.food(), pt(32768, 0));
    assert!(!s.drawable());
}
