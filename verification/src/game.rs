use vstd::prelude::*;

use crate::geometry::{opposite, Direction, Point};
use crate::snake::{initial_snake, State, StateView, Stroke};

verus! {

/// Which screen the game is on.
#[derive(Debug, Clone, Copy, PartialEq, Eq, Structural)]
pub enum GamePhase {
    Menu,
    Playing,
    GameOver,
}

/// A key the player pressed, as far as the game tells keys apart.
#[derive(Debug, Clone, Copy, PartialEq, Eq, Structural)]
pub enum Key {
    Up,
    Down,
    Left,
    Right,
    Enter,
    Esc,
    Char(char),
    Other,
}

/// What the front end does after a key.
#[derive(Debug, Clone, Copy, PartialEq, Eq, Structural)]
pub enum Reply {
    /// Nothing beyond going on.
    Continue,
    /// Leave the game.
    Quit,
    /// A new round has begun: clear the screen and restart the tick clock.
    Start,
}

/// A line of text on the menu and game-over screens.
#[derive(Debug, Clone, Copy, PartialEq, Eq, Structural)]
pub enum Message {
    /// " RUSTY-SNAKE "
    Title,
    /// "Press ENTER to Start"
    PressEnter,
    /// "Press ESC to Quit"
    PressEscape,
    /// " GAME OVER "
    GameOver,
    /// " Final Score: N "
    FinalScore,
    /// "Press R to Restart"
    PressRestart,
}

/// A line of text and the terminal row it is centred on.
#[derive(Debug, Clone, Copy, PartialEq, Eq, Structural)]
pub struct Banner {
    pub message: Message,
    pub row: u16,
}

/// The state a round starts from on a board of `width` columns and `height`
/// rows.
pub open spec fn initial_state(width: u16, height: u16) -> StateView {
    StateView {
        snake: initial_snake(),
        direction: Direction::Right,
        food: Point { x: (width / 2) as u16, y: (height / 2) as u16 },
        width,
        height,
        last_tail: None,
    }
}

/// The direction after the player asks for `wanted`: the snake cannot turn
/// straight back.
pub open spec fn turned(current: Direction, wanted: Direction) -> Direction {
    if wanted == opposite(current) {
        current
    } else {
        wanted
    }
}

/// The same state heading in direction `d`.
pub open spec fn heading(s: StateView, d: Direction) -> StateView {
    StateView {
        snake: s.snake,
        direction: d,
        food: s.food,
        width: s.width,
        height: s.height,
        last_tail: s.last_tail,
    }
}

/// The keys that restart the game from the game-over screen.
pub open spec fn is_restart_key(key: Key) -> bool {
    key == Key::Enter || key == Key::Char('r') || key == Key::Char('R')
}

/// The text lines of each screen and their rows on a terminal of `rows` rows.
pub open spec fn banners_for(phase: GamePhase, rows: int) -> Seq<Banner> {
    let mid = rows / 2;
    match phase {
        GamePhase::Menu => seq![
            Banner { message: Message::Title, row: (mid - 2) as u16 },
            Banner { message: Message::PressEnter, row: mid as u16 },
            Banner { message: Message::PressEscape, row: (mid + 1) as u16 },
        ],
        GamePhase::Playing => Seq::empty(),
        GamePhase::GameOver => seq![
            Banner { message: Message::GameOver, row: (mid - 2) as u16 },
            Banner { message: Message::FinalScore, row: mid as u16 },
            Banner { message: Message::PressRestart, row: (mid + 2) as u16 },
            Banner { message: Message::PressEscape, row: (mid + 3) as u16 },
        ],
    }
}

/// The mathematical picture of a game.
#[verifier::ext_equal]
pub struct GameView {
    pub state: StateView,
    pub phase: GamePhase,
    /// The terminal's columns; the board has half as many.
    pub cols: u16,
    /// The terminal's rows; the board has as many.
    pub rows: u16,
}

impl GameView {
    /// The board's width: every board cell takes two terminal columns.
    pub open spec fn width(self) -> u16 {
        (self.cols / 2) as u16
    }

    /// The game's invariant: a terminal tall enough for the banners, a snake
    /// of at least two cells, and a board of the terminal's size.
    pub open spec fn wf(self) -> bool {
        &&& self.rows >= 4
        &&& self.state.snake.len() >= 2
        &&& self.state.width == self.width()
        &&& self.state.height == self.rows
    }

    /// The same game on another screen with another state.
    pub open spec fn with(self, state: StateView, phase: GamePhase) -> GameView {
        GameView { state, phase, cols: self.cols, rows: self.rows }
    }

    /// The game after key `key`.
    pub open spec fn after_key(self, key: Key) -> GameView {
        let fresh = self.with(initial_state(self.width(), self.rows), GamePhase::Playing);
        match self.phase {
            GamePhase::Menu => if key == Key::Enter {
                fresh
            } else {
                self
            },
            GamePhase::Playing => match key {
                Key::Up => self.with(
                    heading(self.state, turned(self.state.direction, Direction::Up)),
                    GamePhase::Playing,
                ),
                Key::Down => self.with(
                    heading(self.state, turned(self.state.direction, Direction::Down)),
                    GamePhase::Playing,
                ),
                Key::Left => self.with(
                    heading(self.state, turned(self.state.direction, Direction::Left)),
                    GamePhase::Playing,
                ),
                Key::Right => self.with(
                    heading(self.state, turned(self.state.direction, Direction::Right)),
                    GamePhase::Playing,
                ),
                Key::Esc => self.with(self.state, GamePhase::Menu),
                _ => self,
            },
            GamePhase::GameOver => if is_restart_key(key) {
                fresh
            } else {
                self
            },
        }
    }

    /// What the front end is told to do after key `key`.
    pub open spec fn reply_to(self, key: Key) -> Reply {
        match self.phase {
            GamePhase::Menu => if key == Key::Enter {
                Reply::Start
            } else if key == Key::Esc {
                Reply::Quit
            } else {
                Reply::Continue
            },
            GamePhase::Playing => Reply::Continue,
            GamePhase::GameOver => if is_restart_key(key) {
                Reply::Start
            } else if key == Key::Esc {
                Reply::Quit
            } else {
                Reply::Continue
            },
        }
    }
}

/// A game: the screen it is on, the round being played, and the terminal's
/// size.
pub struct Game {
    state: State,
    phase: GamePhase,
    cols: u16,
    rows: u16,
}

impl View for Game {
    type V = GameView;

    closed spec fn view(&self) -> GameView {
        GameView { state: self.state@, phase: self.phase, cols: self.cols, rows: self.rows }
    }
}

impl Game {
    /// A game on a terminal of `cols` columns and `rows` rows, on the menu
    /// screen, with a fresh round on a board half as wide as the terminal.
    pub fn new(cols: u16, rows: u16) -> (g: Self)
        requires
            rows >= 4,
        ensures
            g@.wf(),
            cols >= 18 ==> g@.state.wf(),
            g@ == (GameView {
                state: initial_state((cols / 2) as u16, rows),
                phase: GamePhase::Menu,
                cols,
                rows,
            }),
    {
        let width = cols / 2;
        let state = State::new((width, rows));
        Game { state, phase: GamePhase::Menu, cols, rows }
    }

    fn restart(&mut self)
        requires
            old(self)@.wf(),
        ensures
            final(self)@ == old(self)@.with(
                initial_state(old(self)@.width(), old(self)@.rows),
                GamePhase::Playing,
            ),
            final(self)@.wf(),
            old(self)@.cols >= 18 ==> final(self)@.state.wf(),
    {
        self.state = State::new((self.cols / 2, self.rows));
        self.phase = GamePhase::Playing;
    }

    /// Handles a key press: on the menu, Enter starts a round and Esc quits;
    /// while playing, the arrows steer (never straight back) and Esc goes back
    /// to the menu; after a loss, R, r or Enter start a new round and Esc
    /// quits.
    pub fn handle_key(&mut self, key: Key) -> (reply: Reply)
        requires
            old(self)@.wf(),
        ensures
            final(self)@.wf(),
            final(self)@ == old(self)@.after_key(key),
            reply == old(self)@.reply_to(key),
            old(self)@.cols >= 18 && old(self)@.state.wf() ==> final(self)@.state.wf(),
    {
        match self.phase {
            GamePhase::Menu => match key {
                Key::Enter => {
                    self.restart();
                    Reply::Start
                },
                Key::Esc => Reply::Quit,
                _ => Reply::Continue,
            },
            GamePhase::Playing => {
                match key {
                    Key::Up => self.state.steer(Direction::Up),
                    Key::Down => self.state.steer(Direction::Down),
                    Key::Left => self.state.steer(Direction::Left),
                    Key::Right => self.state.steer(Direction::Right),
                    Key::Esc => self.phase = GamePhase::Menu,
                    _ => {},
                }
                Reply::Continue
            },
            GamePhase::GameOver => match key {
                Key::Char('r') | Key::Char('R') | Key::Enter => {
                    self.restart();
                    Reply::Start
                },
                Key::Esc => Reply::Quit,
                _ => Reply::Continue,
            },
        }
    }

    /// One tick of play: the snake moves forward. When it runs into itself
    /// the round is lost, the game goes to the game-over screen, and `false`
    /// is returned; otherwise the screen stays as it was.
    pub fn tick(&mut self) -> (alive: bool)
        requires
            old(self)@.wf(),
            old(self)@.state.can_step(),
            !old(self)@.state.eats_last_free_cell(),
        ensures
            final(self)@.wf(),
            old(self)@.state.wf() ==> final(self)@.state.wf(),
            final(self)@.cols == old(self)@.cols,
            final(self)@.rows == old(self)@.rows,
            alive == !old(self)@.state.snake.contains(old(self)@.state.next_head()),
            alive ==> final(self)@.phase == old(self)@.phase && old(self)@.state.moved(
                final(self)@.state,
            ),
            !alive ==> final(self)@ == old(self)@.with(old(self)@.state, GamePhase::GameOver),
    {
        let alive = self.state.move_forward();
        if !alive {
            self.phase = GamePhase::GameOver;
        }
        alive
    }

    /// The screen the game is on.
    pub fn phase(&self) -> (p: GamePhase)
        ensures
            p == self@.phase,
    {
        self.phase
    }

    /// The round being played.
    pub fn state(&self) -> (s: &State)
        ensures
            s@ == self@.state,
    {
        &self.state
    }

    /// The current round's score.
    pub fn score(&self) -> (r: usize)
        requires
            self@.wf(),
        ensures
            r == self@.state.score(),
    {
        self.state.score()
    }

    /// What a redraw of the board paints after a tick.
    pub fn frame(&self) -> (strokes: Vec<Stroke>)
        requires
            self@.state.drawable(),
        ensures
            strokes@ == self@.state.frame(),
    {
        self.state.frame()
    }

    /// The text lines of the current screen and their rows: three on the
    /// menu, four after a loss, none while playing.
    pub fn banners(&self) -> (lines: Vec<Banner>)
        requires
            self@.wf(),
        ensures
            lines@ == banners_for(self@.phase, self@.rows as int),
    {
        let mid = self.rows / 2;
        match self.phase {
            GamePhase::Menu => vec![
                Banner { message: Message::Title, row: mid - 2 },
                Banner { message: Message::PressEnter, row: mid },
                Banner { message: Message::PressEscape, row: mid + 1 },
            ],
            GamePhase::Playing => Vec::new(),
            GamePhase::GameOver => vec![
                Banner { message: Message::GameOver, row: mid - 2 },
                Banner { message: Message::FinalScore, row: mid },
                Banner { message: Message::PressRestart, row: mid + 2 },
                Banner { message: Message::PressEscape, row: mid + 3 },
            ],
        }
    }
}

/// The column at which a text of `text_len` bytes starts when centred on a
/// terminal of `cols` columns: half the room left beside it, and column 0
/// when the text is wider than the terminal. The length is taken modulo
/// 65536, as a terminal column is.
pub fn centered_column(cols: u16, text_len: usize) -> (col: u16)
    ensures
        col == (if cols >= text_len as u16 {
            cols - text_len as u16
        } else {
            0
        }) / 2,
{
    let len = text_len as u16;
    cols.saturating_sub(len) / 2
}

/// Milliseconds between two ticks of play when heading in direction `d`.
pub fn tick_millis(d: Direction) -> (ms: u64)
    ensures
        ms == 120,
{
    match d {
        Direction::Up | Direction::Down => 120,
        Direction::Left | Direction::Right => 120,
    }
}

/// While playing, no key turns the snake straight back.
pub proof fn law_no_key_reverses_the_snake(g: GameView, key: Key)
    requires
        g.wf(),
        g.phase == GamePhase::Playing,
    ensures
        g.after_key(key).state.direction != opposite(g.state.direction),
{
}

/// Every new round starts from the same state, whether it is begun from the
/// menu or after a loss, and whatever happened in the round before.
pub proof fn law_new_round_is_fresh(g: GameView, h: GameView, key_g: Key, key_h: Key)
    requires
        g.wf(),
        h.wf(),
        g.cols == h.cols,
        g.rows == h.rows,
        g.reply_to(key_g) == Reply::Start,
        h.reply_to(key_h) == Reply::Start,
    ensures
        g.after_key(key_g) == h.after_key(key_h),
        g.after_key(key_g).phase == GamePhase::Playing,
        g.after_key(key_g).state == initial_state(g.width(), g.rows),
{
}

/// Only a round in play changes direction or position: on the menu and
/// game-over screens a key either starts a new round or leaves the game as it
/// was.
pub proof fn law_screens_keep_the_round(g: GameView, key: Key)
    requires
        g.wf(),
        g.phase != GamePhase::Playing,
        g.reply_to(key) != Reply::Start,
    ensures
        g.after_key(key) == g,
{
}

/// A well-formed round on any terminal can be drawn: its board is at most
/// half as wide as the terminal, so every painted column fits.
pub proof fn law_rounds_in_play_are_drawable(g: GameView)
    requires
        g.wf(),
        g.state.wf(),
    ensures
        g.state.drawable(),
{
    assert forall|i: int| 0 <= i < g.state.snake.len() implies (#[trigger] g.state.snake[i]).x
        < 0x8000 by {
        assert(g.state.on_board(g.state.snake[i]));
    }
}

/// While playing, an arrow key turns the snake the arrow's way, unless that
/// way points straight back, in which case the snake keeps its direction;
/// the key starts no round and leaves the game playing.
pub proof fn law_arrow_keys_steer(g: GameView, key: Key)
    requires
        g.wf(),
        g.phase == GamePhase::Playing,
    ensures
        key == Key::Up && g.state.direction != Direction::Down ==> g.after_key(key).state.direction
            == Direction::Up,
        key == Key::Down && g.state.direction != Direction::Up ==> g.after_key(
            key,
        ).state.direction == Direction::Down,
        key == Key::Left && g.state.direction != Direction::Right ==> g.after_key(
            key,
        ).state.direction == Direction::Left,
        key == Key::Right && g.state.direction != Direction::Left ==> g.after_key(
            key,
        ).state.direction == Direction::Right,
        key == Key::Up && g.state.direction == Direction::Down ==> g.after_key(key).state.direction
            == Direction::Down,
        key == Key::Down && g.state.direction == Direction::Up ==> g.after_key(key).state.direction
            == Direction::Up,
        key == Key::Left && g.state.direction == Direction::Right ==> g.after_key(
            key,
        ).state.direction == Direction::Right,
        key == Key::Right && g.state.direction == Direction::Left ==> g.after_key(
            key,
        ).state.direction == Direction::Left,
        (key == Key::Up || key == Key::Down || key == Key::Left || key == Key::Right) ==> {
            &&& g.after_key(key).phase == GamePhase::Playing
            &&& g.after_key(key).state.snake == g.state.snake
            &&& g.after_key(key).state.food == g.state.food
            &&& g.reply_to(key) == Reply::Continue
        },
{
}

/// The menu's lines sit around the terminal's middle row: "Press ENTER" on
/// it, the title two rows above, "Press ESC" one row below. After a loss the
/// final score sits on the middle row, "GAME OVER" two rows above, "Press R"
/// two rows below and "Press ESC" three rows below. While playing no line is
/// shown.
pub proof fn law_banners_centre_on_the_middle_row(rows: int)
    requires
        4 <= rows <= 0xFFFF,
    ensures
        banners_for(GamePhase::Menu, rows).len() == 3,
        banners_for(GamePhase::Menu, rows)[0].message == Message::Title,
        banners_for(GamePhase::Menu, rows)[0].row == rows / 2 - 2,
        banners_for(GamePhase::Menu, rows)[1].message == Message::PressEnter,
        banners_for(GamePhase::Menu, rows)[1].row == rows / 2,
        banners_for(GamePhase::Menu, rows)[2].message == Message::PressEscape,
        banners_for(GamePhase::Menu, rows)[2].row == rows / 2 + 1,
        banners_for(GamePhase::GameOver, rows).len() == 4,
        banners_for(GamePhase::GameOver, rows)[0].message == Message::GameOver,
        banners_for(GamePhase::GameOver, rows)[0].row == rows / 2 - 2,
        banners_for(GamePhase::GameOver, rows)[1].message == Message::FinalScore,
        banners_for(GamePhase::GameOver, rows)[1].row == rows / 2,
        banners_for(GamePhase::GameOver, rows)[2].message == Message::PressRestart,
        banners_for(GamePhase::GameOver, rows)[2].row == rows / 2 + 2,
        banners_for(GamePhase::GameOver, rows)[3].message == Message::PressEscape,
        banners_for(GamePhase::GameOver, rows)[3].row == rows / 2 + 3,
        banners_for(GamePhase::Playing, rows).len() == 0,
{
}

} // verus!
