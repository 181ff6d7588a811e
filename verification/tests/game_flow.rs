use rusty_snake::game::{centered_column, tick_millis, Banner, Game, GamePhase, Key, Message, Reply};
use rusty_snake::geometry::{Direction, Point};

fn playing(cols: u16, rows: u16) -> Game {
    let mut g = Game::new(cols, rows);
    assert_eq!(g.handle_key(Key::Enter), Reply::Start);
    g
}

#[test]
fn a_game_opens_on_the_menu() {
    let g = Game::new(80, 24);
    assert_eq!(g.phase(), GamePhase::Menu);
    assert_eq!(g.state().size(), (40, 24));
    assert_eq!(g.score(), 7);
}

#[test]
fn menu_keys() {
    let mut g = Game::new(80, 24);
    assert_eq!(g.handle_key(Key::Char('x')), Reply::Continue);
    assert_eq!(g.handle_key(Key::Up), Reply::Continue);
    assert_eq!(g.phase(), GamePhase::Menu);
    assert_eq!(g.state().direction(), Direction::Right);
    assert_eq!(g.handle_key(Key::Esc), Reply::Quit);
    assert_eq!(g.handle_key(Key::Enter), Reply::Start);
    assert_eq!(g.phase(), GamePhase::Playing);
}

#[test]
fn arrows_steer_while_playing() {
    let mut g = playing(80, 24);
    assert_eq!(g.handle_key(Key::Left), Reply::Continue);
    assert_eq!(g.state().direction(), Direction::Right);
    assert_eq!(g.handle_key(Key::Down), Reply::Continue);
    assert_eq!(g.state().direction(), Direction::Down);
    assert_eq!(g.handle_key(Key::Up), Reply::Continue);
    assert_eq!(g.state().direction(), Direction::Down);
    assert_eq!(g.handle_key(Key::Right), Reply::Continue);
    assert_eq!(g.state().direction(), Direction::Right);
    assert_eq!(g.handle_key(Key::Enter), Reply::Continue);
    assert_eq!(g.phase(), GamePhase::Playing);
}

#[test]
fn escape_while_playing_goes_back_to_the_menu() {
    let mut g = playing(80, 24);
    assert!(g.tick());
    assert_eq!(g.handle_key(Key::Esc), Reply::Continue);
    assert_eq!(g.phase(), GamePhase::Menu);
    // The round is kept until a new one starts.
    assert_eq!(g.state().cells()[0], Point { x: 9, y: 0 });
    assert_eq!(g.handle_key(Key::Enter), Reply::Start);
    assert_eq!(g.state().cells()[0], Point { x: 8, y: 0 });
}

#[test]
fn ticks_move_the_snake() {
    let mut g = playing(80, 24);
    assert!(g.tick());
    assert!(g.tick());
    assert_eq!(g.state().cells()[0], Point { x: 10, y: 0 });
    assert_eq!(g.phase(), GamePhase::Playing);
    assert_eq!(g.frame().len(), 12);
}

#[test]
fn crashing_ends_the_round() {
    // A board of nine columns: the first move wraps onto the tail.
    let mut g = playing(18, 4);
    assert!(!g.tick());
    assert_eq!(g.phase(), GamePhase::GameOver);
    assert_eq!(g.score(), 7);
}

#[test]
fn game_over_keys() {
    for key in [Key::Char('r'), Key::Char('R'), Key::Enter] {
        let mut g = playing(18, 4);
        assert!(!g.tick());
        assert_eq!(g.handle_key(Key::Char('q')), Reply::Continue);
        assert_eq!(g.handle_key(Key::Up), Reply::Continue);
        assert_eq!(g.phase(), GamePhase::GameOver);
        assert_eq!(g.handle_key(key), Reply::Start);
        assert_eq!(g.phase(), GamePhase::Playing);
        assert_eq!(g.state().direction(), Direction::Right);
    }
    let mut g = playing(18, 4);
    assert!(!g.tick());
    assert_eq!(g.handle_key(Key::Esc), Reply::Quit);
}

#[test]
fn banners_of_each_screen() {
    let mut g = Game::new(80, 24);
    assert_eq!(
        g.banners(),
        vec![
            Banner { message: Message::Title, row: 10 },
            Banner { message: Message::PressEnter, row: 12 },
            Banner { message: Message::PressEscape, row: 13 },
        ]
    );
    g.handle_key(Key::Enter);
    assert!(g.banners().is_empty());
    let mut g = playing(18, 5);
    assert!(!g.tick());
    assert_eq!(
        g.banners(),
        vec![
            Banner { message: Message::GameOver, row: 0 },
            Banner { message: Message::FinalScore, row: 2 },
            Banner { message: Message::PressRestart, row: 4 },
            Banner { message: Message::PressEscape, row: 5 },
        ]
    );
}

#[test]
fn centred_text_columns() {
    assert_eq!(centered_column(80, " RUSTY-SNAKE ".len()), 33);
    assert_eq!(centered_column(80, 20), 30);
    assert_eq!(centered_column(81, 20), 30);
    assert_eq!(centered_column(10, 20), 0);
    assert_eq!(centered_column(10, 10), 0);
    assert_eq!(centered_column(100, 65536 + 20), 40);
}

#[test]
fn ticks_come_every_120_ms() {
    for d in [Direction::Up, Direction::Down, Direction::Left, Direction::Right] {
        assert_eq!(tick_millis(d), 120);
    }
}
