//! The game: its state, what a tick of the clock and the keys do to it,
//! and the `Tetris` that plays it.

use crate::board::{
    collapsed, complete_count, empty_grid, in_palette, is_grid, lemma_collapsed_is_grid,
    lemma_merged_is_grid, lemma_valid_position_bounds, merged, row_complete, valid_position,
    Board, Grid,
};
use crate::laws::lemma_tick_score;
use crate::piece::{Piece, SPAWN_X, SPAWN_Y};
use crate::shape::Shape;
use crate::state::{Key, State};
use vstd::prelude::*;

verus! {

/// While left or right is held, the piece moves one more column each time
/// more than this many milliseconds have passed.
pub const MOVESIDEWAYSFREQ: u64 = 150;

/// While down is held, the piece moves one more row each time more than
/// this many milliseconds have passed.
pub const MOVEDOWNFREQ: u64 = 100;

/// The fall interval, in milliseconds, that each level shortens.
pub const BASEFALLFREQ: u64 = 270;

/// By how many milliseconds a level shortens the fall interval.
pub const LEVELFALLSTEP: u64 = 20;

/// The shortest fall interval, in milliseconds.
pub const MINFALLFREQ: u64 = 10;

/// The level reached with a score: one, and one more for every ten points.
pub open spec fn level_of(score: int) -> int {
    score / 10 + 1
}

/// The fall interval of a level, in milliseconds: 270 less 20 for each
/// level, and never under 10.
pub open spec fn fall_freq_of(level: int) -> int {
    if BASEFALLFREQ - LEVELFALLSTEP * level > MINFALLFREQ {
        BASEFALLFREQ - LEVELFALLSTEP * level
    } else {
        MINFALLFREQ as int
    }
}

/// The level reached with `score`, and that level's fall interval in
/// milliseconds.
pub fn calculate_level_and_fall_freq(score: u32) -> (r: (u32, u64))
    ensures
        r.0 == level_of(score as int),
        r.1 == fall_freq_of(r.0 as int),
{
    let level: u32 = score / 10 + 1;
    let shortened: u64 = LEVELFALLSTEP * (level as u64);
    let fall_freq: u64 = if shortened + MINFALLFREQ < BASEFALLFREQ {
        BASEFALLFREQ - shortened
    } else {
        MINFALLFREQ
    };
    (level, fall_freq)
}

/// The level does not fall as the score grows, and the fall interval is
/// positive and does not grow with the level.
pub proof fn lemma_level_and_fall_freq_monotone(score: int, more: int)
    requires
        0 <= score <= more,
    ensures
        1 <= level_of(score) <= level_of(more),
        MINFALLFREQ <= fall_freq_of(level_of(more)) <= fall_freq_of(level_of(score)) < BASEFALLFREQ,
{
}

/// The milliseconds from `since` to `now`; none if `now` is the earlier.
pub open spec fn elapsed(now: u64, since: u64) -> int {
    if now >= since {
        now - since
    } else {
        0
    }
}

/// The milliseconds from `since` to `now`; none if `now` is the earlier.
fn elapsed_since(now: u64, since: u64) -> (ms: u64)
    ensures
        ms == elapsed(now, since),
{
    if now >= since {
        now - since
    } else {
        0
    }
}

/// Which way the piece keeps moving while a key is held.
#[derive(Clone, Copy, Debug, PartialEq, Eq, Structural)]
pub enum Moving {
    Down,
    Left,
    Right,
    Not,
}

/// The score after `cleared` more rows: one point a row, and no further
/// than the largest number a score can hold.
pub open spec fn score_after(score: u32, cleared: nat) -> u32 {
    if score + cleared > u32::MAX {
        u32::MAX
    } else {
        (score + cleared) as u32
    }
}

/// `d` is how far the piece drops: it can go down by every distance up to
/// `d`, and not by one more.
pub open spec fn is_drop_distance(g: Grid, p: Piece, d: int) -> bool {
    &&& 0 <= d
    &&& forall|k: int| 1 <= k <= d ==> #[trigger] valid_position(g, p, 0, k)
    &&& !valid_position(g, p, 0, d + 1)
}

/// How far the piece drops.
pub open spec fn drop_distance(g: Grid, p: Piece) -> int {
    choose|d: int| is_drop_distance(g, p, d)
}

/// The state of a game: the model of a [`Tetris`].
pub struct GameState {
    /// The settled cells.
    pub board: Grid,
    /// The piece that is falling; none between the tick in which a piece
    /// has landed and the next.
    pub falling: Option<Piece>,
    /// The piece that falls next.
    pub next: Piece,
    pub score: u32,
    pub level: u32,
    /// Milliseconds between two steps of gravity.
    pub fall_freq: u64,
    /// When gravity last moved the piece, or the piece appeared.
    pub last_fall_time: u64,
    /// When the piece was last moved down by the player.
    pub last_move_down_time: u64,
    /// When the piece was last moved sideways.
    pub last_move_sideways_time: u64,
    pub moving: Moving,
}

impl GameState {
    /// What holds of every game: the board has its dimensions and holds
    /// colors of the palette, the pieces are well-formed and no higher than
    /// the spawn row, and level and fall interval are those of the score.
    pub open spec fn wf(self) -> bool {
        &&& is_grid(self.board)
        &&& in_palette(self.board)
        &&& match self.falling {
            Some(p) => p.in_play(),
            None => true,
        }
        &&& self.next.in_play()
        &&& self.level == level_of(self.score as int)
        &&& self.fall_freq == fall_freq_of(self.level as int)
    }

    /// The falling piece, if there is one, fits where it is.
    pub open spec fn piece_fits(self) -> bool {
        match self.falling {
            Some(p) => valid_position(self.board, p, 0, 0),
            None => true,
        }
    }

    /// No row of the board is complete.
    pub open spec fn no_complete_row(self) -> bool {
        forall|y: int| 0 <= y < self.board.len() ==> !row_complete(
            #[trigger] self.board[y],
        )
    }

    /// A game that has just begun at `now`, with the two given pieces.
    pub open spec fn fresh(now: u64, falling: Piece, next: Piece) -> GameState {
        GameState {
            board: empty_grid(),
            falling: Some(falling),
            next,
            score: 0,
            level: 1,
            fall_freq: 250,
            last_fall_time: now,
            last_move_down_time: now,
            last_move_sideways_time: now,
            moving: Moving::Not,
        }
    }

    /// The falling piece; only meant where there is one.
    pub open spec fn piece(self) -> Piece {
        self.falling->0
    }

    /// The falling piece can move by `dx` columns and `dy` rows.
    pub open spec fn can_move(self, dx: int, dy: int) -> bool {
        valid_position(self.board, self.piece(), dx, dy)
    }

    /// The game with the falling piece moved by `dx` columns and `dy` rows.
    pub open spec fn with_piece_moved(self, dx: int, dy: int) -> GameState {
        GameState { falling: Some(self.piece().shifted(dx, dy)), ..self }
    }

    /// There is no falling piece, and the next one does not fit where it
    /// appears.
    pub open spec fn spawn_blocked(self) -> bool {
        self.falling is None && !valid_position(self.board, self.next, 0, 0)
    }

    /// Where there is no falling piece, the next piece becomes the falling
    /// one, `fresh` the next one, and the fall timer starts at `now`.
    pub open spec fn spawned(self, now: u64, fresh: Piece) -> GameState {
        if self.falling is None {
            GameState { falling: Some(self.next), next: fresh, last_fall_time: now, ..self }
        } else {
            self
        }
    }

    /// Letting go of left, right or down ends the held movement.
    pub open spec fn released(self, key: Option<Key>) -> GameState {
        match key {
            Some(Key::Left) | Some(Key::Right) | Some(Key::Down) => GameState {
                moving: Moving::Not,
                ..self
            },
            _ => self,
        }
    }

    /// The falling piece moved one column, by `dx`, if it can; the movement
    /// is then held in `direction` and the sideways timer starts at `now`.
    pub open spec fn pushed_sideways(self, dx: int, direction: Moving, now: u64) -> GameState {
        if self.can_move(dx, 0) {
            GameState {
                moving: direction,
                last_move_sideways_time: now,
                ..self.with_piece_moved(dx, 0)
            }
        } else {
            self
        }
    }

    /// The falling piece replaced by `turned` if that fits.
    pub open spec fn turned_to(self, turned: Piece) -> GameState {
        if valid_position(self.board, turned, 0, 0) {
            GameState { falling: Some(turned), ..self }
        } else {
            self
        }
    }

    /// Down is held from now on, the down timer starts at `now`, and the
    /// falling piece moves one row down if it can.
    pub open spec fn pushed_down(self, now: u64) -> GameState {
        let moved = if self.can_move(0, 1) {
            self.with_piece_moved(0, 1)
        } else {
            self
        };
        GameState { moving: Moving::Down, last_move_down_time: now, ..moved }
    }

    /// The falling piece dropped as far as it goes; no movement is held.
    pub open spec fn dropped(self) -> GameState {
        GameState {
            moving: Moving::Not,
            ..self.with_piece_moved(0, drop_distance(self.board, self.piece()))
        }
    }

    /// What pressing `key` does at once.
    pub open spec fn pressed(self, key: Option<Key>, now: u64) -> GameState {
        match key {
            Some(Key::Left) | Some(Key::A) => self.pushed_sideways(-1, Moving::Left, now),
            Some(Key::Right) | Some(Key::D) => self.pushed_sideways(1, Moving::Right, now),
            Some(Key::Up) | Some(Key::W) => self.turned_to(self.piece().rotated_forward()),
            Some(Key::Q) => self.turned_to(self.piece().rotated_backward()),
            Some(Key::Down) => self.pushed_down(now),
            Some(Key::Space) => self.dropped(),
            _ => self,
        }
    }

    /// A held sideways movement goes on: once more than
    /// `MOVESIDEWAYSFREQ` milliseconds have passed on the sideways timer,
    /// the piece moves one more column if it can, and the timer starts
    /// again.
    pub open spec fn repeated_sideways(self, now: u64) -> GameState {
        if (self.moving == Moving::Left || self.moving == Moving::Right) && elapsed(
            now,
            self.last_move_sideways_time,
        ) > MOVESIDEWAYSFREQ {
            let dx: int = if self.moving == Moving::Left {
                -1
            } else {
                1
            };
            let moved = if self.can_move(dx, 0) {
                self.with_piece_moved(dx, 0)
            } else {
                self
            };
            GameState { last_move_sideways_time: now, ..moved }
        } else {
            self
        }
    }

    /// A held downward movement goes on: once more than `MOVEDOWNFREQ`
    /// milliseconds have passed on the sideways timer, the piece moves one
    /// more row if it can, and the down timer then starts again.
    pub open spec fn repeated_down(self, now: u64) -> GameState {
        if self.moving == Moving::Down && elapsed(now, self.last_move_sideways_time)
            > MOVEDOWNFREQ && self.can_move(0, 1) {
            GameState { last_move_down_time: now, ..self.with_piece_moved(0, 1) }
        } else {
            self
        }
    }

    /// The falling piece has landed: it is settled into the board, the
    /// complete rows go and count one point each, level and fall interval
    /// follow the score, no piece is falling and no movement is held.
    pub open spec fn landed(self) -> GameState {
        let settled = merged(self.board, self.piece());
        let score = score_after(self.score, complete_count(settled));
        let level = level_of(score as int) as u32;
        GameState {
            board: collapsed(settled),
            falling: None,
            score,
            level,
            fall_freq: fall_freq_of(level as int) as u64,
            moving: Moving::Not,
            ..self
        }
    }

    /// Gravity: once more than the fall interval has passed on the fall
    /// timer, the piece moves one row down and the timer starts again, or,
    /// where it cannot move down, it lands.
    pub open spec fn fallen(self, now: u64) -> GameState {
        if elapsed(now, self.last_fall_time) > self.fall_freq {
            if self.can_move(0, 1) {
                GameState { last_fall_time: now, ..self.with_piece_moved(0, 1) }
            } else {
                self.landed()
            }
        } else {
            self
        }
    }

    /// One tick at time `now`, with the key pressed and the key let go of
    /// since the last one, if any, and with `fresh` to take for the next
    /// piece if a piece has to appear: the game after the tick, and what
    /// the program shows next.
    pub open spec fn tick(
        self,
        now: u64,
        press: Option<Key>,
        release: Option<Key>,
        fresh: Piece,
    ) -> (GameState, State) {
        let begun = self.spawned(now, fresh);
        if self.spawn_blocked() {
            (begun, State::GameOver)
        } else if press == Some(Key::P) {
            (begun.released(release), State::Paused)
        } else {
            (
                begun.released(release).pressed(press, now).repeated_sideways(now).repeated_down(
                    now,
                ).fallen(now),
                State::Run,
            )
        }
    }
}

/// What there is to draw of a game.
#[derive(Clone, Copy, Debug)]
pub struct Snapshot {
    pub board: Board,
    pub falling_piece: Option<Piece>,
    pub next_piece: Piece,
    pub score: u32,
    pub level: u32,
}

/// A game: the board, the falling piece and the one to follow, the score
/// with its level and fall interval, the timers and the held movement.
/// Times are in milliseconds on a clock of the caller's choosing.
pub struct Tetris {
    board: Board,
    rng: rand::rngs::ThreadRng,
    last_fall_time: u64,
    last_move_down_time: u64,
    last_move_sideways_time: u64,
    moving: Moving,
    score: u32,
    falling_piece: Option<Piece>,
    next_piece: Piece,
    level: u32,
    fall_freq: u64,
}

impl View for Tetris {
    type V = GameState;

    closed spec fn view(&self) -> GameState {
        GameState {
            board: self.board@,
            falling: self.falling_piece,
            next: self.next_piece,
            score: self.score,
            level: self.level,
            fall_freq: self.fall_freq,
            last_fall_time: self.last_fall_time,
            last_move_down_time: self.last_move_down_time,
            last_move_sideways_time: self.last_move_sideways_time,
            moving: self.moving,
        }
    }
}

impl Tetris {
    #[verifier::type_invariant]
    spec fn inv(self) -> bool {
        self@.wf()
    }

    /// A new game at time `now`: an empty board, two pieces drawn from the
    /// thread's generator, no points.
    pub fn new(now: u64) -> (game: Tetris)
        ensures
            game@.wf(),
            game@.falling is Some,
            game@.piece().is_spawn(),
            game@.next.is_spawn(),
            game@ == GameState::fresh(now, game@.piece(), game@.next),
    {
        let mut rng = rand::thread_rng();
        let falling_piece = Piece::new(&mut rng);
        let next_piece = Piece::new(&mut rng);
        let (level, fall_freq) = calculate_level_and_fall_freq(0);
        Tetris {
            board: Board::new(),
            rng,
            last_fall_time: now,
            last_move_down_time: now,
            last_move_sideways_time: now,
            moving: Moving::Not,
            score: 0,
            falling_piece: Some(falling_piece),
            next_piece,
            level,
            fall_freq,
        }
    }

    /// A game put together from its parts, as if it had been played up to
    /// there: the timers start at `now`, no movement is held, and level and
    /// fall interval are those of the score.
    pub fn from_parts(
        board: Board,
        falling_piece: Option<Piece>,
        next_piece: Piece,
        score: u32,
        now: u64,
    ) -> (game: Tetris)
        requires
            in_palette(board@),
            match falling_piece {
                Some(p) => p.in_play(),
                None => true,
            },
            next_piece.in_play(),
        ensures
            game@.wf(),
            game@ == (GameState {
                board: board@,
                falling: falling_piece,
                next: next_piece,
                score,
                level: level_of(score as int) as u32,
                fall_freq: fall_freq_of(level_of(score as int)) as u64,
                last_fall_time: now,
                last_move_down_time: now,
                last_move_sideways_time: now,
                moving: Moving::Not,
            }),
    {
        let (level, fall_freq) = calculate_level_and_fall_freq(score);
        Tetris {
            board,
            rng: rand::thread_rng(),
            last_fall_time: now,
            last_move_down_time: now,
            last_move_sideways_time: now,
            moving: Moving::Not,
            score,
            falling_piece,
            next_piece,
            level,
            fall_freq,
        }
    }

    /// Where no piece is falling, lets the next piece fall, takes `fresh`
    /// for the next one and starts the fall timer at `now`; says whether
    /// the piece that then falls does not fit where it has appeared.
    fn spawn(&mut self, now: u64, fresh: Piece) -> (blocked: bool)
        requires
            fresh.in_play(),
        ensures
            final(self)@ == old(self)@.spawned(now, fresh),
            blocked == old(self)@.spawn_blocked(),
            final(self)@.falling is Some,
    {
        proof {
            use_type_invariant(&*self);
        }
        if self.falling_piece.is_none() {
            let promoted = self.next_piece;
            self.falling_piece = Some(promoted);
            self.next_piece = fresh;
            self.last_fall_time = now;
            !self.board.is_valid_position(&promoted, 0, 0)
        } else {
            false
        }
    }

    /// Ends the held movement where left, right or down was let go of.
    fn handle_release(&mut self, key: Option<Key>)
        ensures
            final(self)@ == old(self)@.released(key),
    {
        proof {
            use_type_invariant(&*self);
        }
        match key {
            Some(Key::Left) | Some(Key::Right) | Some(Key::Down) => {
                self.moving = Moving::Not;
            },
            _ => {},
        }
    }

    /// Does at once what pressing `key` asks for.
    fn handle_press(&mut self, key: Option<Key>, now: u64)
        requires
            old(self)@.falling is Some,
        ensures
            final(self)@ == old(self)@.pressed(key, now),
            final(self)@.falling is Some,
    {
        proof {
            use_type_invariant(&*self);
        }
        let fp = self.falling_piece.unwrap();
        match key {
            Some(Key::Left) | Some(Key::A) => {
                let (moved, valid) = move_if_valid(&self.board, fp, -1, 0);
                if valid {
                    self.falling_piece = Some(moved);
                    self.moving = Moving::Left;
                    self.last_move_sideways_time = now;
                }
            },
            Some(Key::Right) | Some(Key::D) => {
                let (moved, valid) = move_if_valid(&self.board, fp, 1, 0);
                if valid {
                    self.falling_piece = Some(moved);
                    self.moving = Moving::Right;
                    self.last_move_sideways_time = now;
                }
            },
            Some(Key::Up) | Some(Key::W) => {
                let mut turned = fp;
                turned.rotate_forward();
                self.falling_piece = Some(turn_if_valid(&self.board, fp, turned));
            },
            Some(Key::Q) => {
                let mut turned = fp;
                turned.rotate_backward();
                self.falling_piece = Some(turn_if_valid(&self.board, fp, turned));
            },
            Some(Key::Down) => {
                self.moving = Moving::Down;
                let (moved, _) = move_if_valid(&self.board, fp, 0, 1);
                self.falling_piece = Some(moved);
                self.last_move_down_time = now;
            },
            Some(Key::Space) => {
                self.moving = Moving::Not;
                self.falling_piece = Some(drop_piece(&self.board, fp));
            },
            _ => {},
        }
    }

    /// Goes on with a held movement once its interval has passed.
    fn auto_repeat(&mut self, now: u64)
        requires
            old(self)@.falling is Some,
        ensures
            final(self)@ == old(self)@.repeated_sideways(now).repeated_down(now),
            final(self)@.falling is Some,
    {
        proof {
            use_type_invariant(&*self);
        }
        let fp = self.falling_piece.unwrap();
        if (self.moving == Moving::Left || self.moving == Moving::Right) && elapsed_since(
            now,
            self.last_move_sideways_time,
        ) > MOVESIDEWAYSFREQ {
            let dx: isize = if self.moving == Moving::Left {
                -1
            } else {
                1
            };
            let (moved, _) = move_if_valid(&self.board, fp, dx, 0);
            self.falling_piece = Some(moved);
            self.last_move_sideways_time = now;
        }
        if self.moving == Moving::Down && elapsed_since(now, self.last_move_sideways_time)
            > MOVEDOWNFREQ {
            let fp = self.falling_piece.unwrap();
            let (moved, valid) = move_if_valid(&self.board, fp, 0, 1);
            if valid {
                self.falling_piece = Some(moved);
                self.last_move_down_time = now;
            }
        }
    }

    /// Gravity: once the fall interval has passed, moves the piece one row
    /// down, or settles it where it cannot move down.
    fn fall(&mut self, now: u64)
        requires
            old(self)@.falling is Some,
        ensures
            final(self)@ == old(self)@.fallen(now),
    {
        proof {
            use_type_invariant(&*self);
        }
        if elapsed_since(now, self.last_fall_time) > self.fall_freq {
            let fp = self.falling_piece.unwrap();
            let (moved, valid) = move_if_valid(&self.board, fp, 0, 1);
            if valid {
                self.falling_piece = Some(moved);
                self.last_fall_time = now;
            } else {
                let mut board = self.board;
                board.add(&fp);
                proof {
                    lemma_merged_is_grid(self.board@, fp);
                    lemma_collapsed_is_grid(board@);
                }
                let cleared = board.remove_complete_lines();
                let score = self.score.saturating_add(cleared);
                let (level, fall_freq) = calculate_level_and_fall_freq(score);
                *self = Tetris {
                    board,
                    rng: self.rng,
                    last_fall_time: self.last_fall_time,
                    last_move_down_time: self.last_move_down_time,
                    last_move_sideways_time: self.last_move_sideways_time,
                    moving: Moving::Not,
                    score,
                    falling_piece: None,
                    next_piece: self.next_piece,
                    level,
                    fall_freq,
                };
            }
        }
    }

    /// One tick at time `now`, with the key pressed and the key let go of
    /// since the last one, if any, and with `fresh` to take for the next
    /// piece if a piece has to appear. Says what the program shows next:
    /// the end of the game where a piece has appeared and does not fit,
    /// the pause screen where `P` was pressed, else the running game.
    pub fn step(
        &mut self,
        now: u64,
        press: Option<Key>,
        release: Option<Key>,
        fresh: Piece,
    ) -> (next: State)
        requires
            fresh.in_play(),
        ensures
            (final(self)@, next) == old(self)@.tick(now, press, release, fresh),
            final(self)@.wf(),
            final(self)@.score >= old(self)@.score,
    {
        proof {
            lemma_tick_score(self@, now, press, release, fresh);
        }
        let blocked = self.spawn(now, fresh);
        if blocked {
            proof {
                use_type_invariant(&*self);
            }
            return State::GameOver;
        }
        self.handle_release(release);
        if press == Some(Key::P) {
            proof {
                use_type_invariant(&*self);
            }
            return State::Paused;
        }
        self.handle_press(press, now);
        self.auto_repeat(now);
        self.fall(now);
        proof {
            use_type_invariant(&*self);
        }
        State::Run
    }

    /// One tick at time `now`, with the key pressed and the key let go of
    /// since the last one, if any. Where a piece has to appear, the piece
    /// to follow it is drawn from the game's generator.
    pub fn run(&mut self, now: u64, press: Option<Key>, release: Option<Key>) -> (next: State)
        ensures
            exists|fresh: Piece|
                fresh.is_spawn() && (final(self)@, next) == #[trigger] old(self)@.tick(
                    now,
                    press,
                    release,
                    fresh,
                ),
            final(self)@.wf(),
            final(self)@.score >= old(self)@.score,
    {
        proof {
            use_type_invariant(&*self);
        }
        let fresh = if self.falling_piece.is_none() {
            // The generator is a handle to the thread's own: the copy draws
            // from the same source.
            let mut rng = self.rng;
            Piece::new(&mut rng)
        } else {
            self.next_piece
        };
        let ghost before = self@;
        let next = self.step(now, press, release, fresh);
        proof {
            if before.falling is Some {
                let any = Piece {
                    shape: Shape::O,
                    rotation: 0,
                    x: SPAWN_X,
                    y: SPAWN_Y,
                    color: 0,
                };
                assert(before.tick(now, press, release, any) == before.tick(
                    now,
                    press,
                    release,
                    fresh,
                ));
            }
        }
        next
    }

    /// What there is to draw: the board, the falling piece if there is one,
    /// the next piece, score and level. What holds of every game holds of
    /// this one: the colors to draw are colors of the palette, and the
    /// pieces are in rotation states of their shapes.
    pub fn snapshot(&self) -> (shot: Snapshot)
        ensures
            self@.wf(),
            shot.board@ == self@.board,
            shot.falling_piece == self@.falling,
            shot.next_piece == self@.next,
            shot.score == self@.score,
            shot.level == self@.level,
    {
        proof {
            use_type_invariant(self);
        }
        Snapshot {
            board: self.board,
            falling_piece: self.falling_piece,
            next_piece: self.next_piece,
            score: self.score,
            level: self.level,
        }
    }

    /// The movement that is held.
    pub fn moving(&self) -> (m: Moving)
        ensures
            m == self@.moving,
    {
        self.moving
    }

    /// Milliseconds between two steps of gravity.
    pub fn fall_freq(&self) -> (ms: u64)
        ensures
            ms == self@.fall_freq,
    {
        self.fall_freq
    }
}

/// No piece drops by two different distances.
pub proof fn lemma_drop_distance_unique(g: Grid, p: Piece, d: int, e: int)
    requires
        is_drop_distance(g, p, d),
        is_drop_distance(g, p, e),
    ensures
        d == e,
{
    if d < e {
        assert(valid_position(g, p, 0, d + 1));
    } else if e < d {
        assert(valid_position(g, p, 0, e + 1));
    }
}

/// Every piece drops by some distance; `from` is a distance up to which it
/// is known to go down.
proof fn lemma_drop_distance_from(g: Grid, p: Piece, from: int)
    requires
        p.rotation < p.shape.spec_rotation_count(),
        0 <= from,
        forall|k: int| 1 <= k <= from ==> #[trigger] valid_position(g, p, 0, k),
    ensures
        is_drop_distance(g, p, drop_distance(g, p)),
        from <= drop_distance(g, p),
    decreases 18 - p.y - from,
{
    if valid_position(g, p, 0, from + 1) {
        lemma_valid_position_bounds(g, p, 0, from + 1);
        lemma_drop_distance_from(g, p, from + 1);
    } else {
        assert(is_drop_distance(g, p, from));
        lemma_drop_distance_unique(g, p, from, drop_distance(g, p));
    }
}

/// Every piece drops by some distance: down to where it can go no
/// further, and by nothing where it cannot go down at all.
pub proof fn lemma_drop_distance(g: Grid, p: Piece)
    requires
        p.rotation < p.shape.spec_rotation_count(),
    ensures
        is_drop_distance(g, p, drop_distance(g, p)),
        !valid_position(g, p, 0, 1) ==> drop_distance(g, p) == 0,
        p.y + drop_distance(g, p) <= 17 || drop_distance(g, p) == 0,
{
    lemma_drop_distance_from(g, p, 0);
    let d = drop_distance(g, p);
    if d > 0 {
        assert(valid_position(g, p, 0, d));
        lemma_valid_position_bounds(g, p, 0, d);
    }
}

/// The piece dropped as far as it goes on the board: the distances are
/// tried in turn, from one row on, up to the first by which the piece
/// cannot go down.
fn drop_piece(board: &Board, piece: Piece) -> (landed: Piece)
    requires
        piece.in_play(),
    ensures
        landed == piece.shifted(0, drop_distance(board@, piece)),
        landed.in_play(),
{
    let mut i: isize = 1;
    while board.is_valid_position(&piece, 0, i)
        invariant
            piece.in_play(),
            1 <= i <= 20,
            i == 1 || piece.y + (i - 1) <= 17,
            forall|k: int| 1 <= k < i ==> #[trigger] valid_position(board@, piece, 0, k),
        decreases 20 - i,
    {
        proof {
            lemma_valid_position_bounds(board@, piece, 0, i as int);
        }
        i += 1;
    }
    proof {
        assert(is_drop_distance(board@, piece, i - 1));
        lemma_drop_distance(board@, piece);
        lemma_drop_distance_unique(board@, piece, i - 1, drop_distance(board@, piece));
    }
    Piece { y: piece.y + (i - 1), ..piece }
}

/// The piece moved by `dx` columns and `dy` rows, each one step at most,
/// if it can be there on the board; else the piece as it is.
fn move_if_valid(board: &Board, piece: Piece, dx: isize, dy: isize) -> (r: (Piece, bool))
    requires
        piece.in_play(),
        -1 <= dx <= 1,
        0 <= dy <= 1,
    ensures
        r.1 == valid_position(board@, piece, dx as int, dy as int),
        r.0 == (if r.1 {
            piece.shifted(dx as int, dy as int)
        } else {
            piece
        }),
        r.0.in_play(),
{
    if board.is_valid_position(&piece, dx, dy) {
        proof {
            lemma_valid_position_bounds(board@, piece, dx as int, dy as int);
        }
        (Piece { x: piece.x + dx, y: piece.y + dy, ..piece }, true)
    } else {
        (piece, false)
    }
}

/// The piece replaced by `turned` if that can be where it is on the board;
/// else the piece as it is.
fn turn_if_valid(board: &Board, piece: Piece, turned: Piece) -> (r: Piece)
    requires
        turned.rotation < turned.shape.spec_rotation_count(),
    ensures
        r == (if valid_position(board@, turned, 0, 0) {
            turned
        } else {
            piece
        }),
{
    if board.is_valid_position(&turned, 0, 0) {
        turned
    } else {
        piece
    }
}

} // verus!
