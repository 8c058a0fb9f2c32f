//! The screens of the program, the keys, and the way from one screen to
//! the next.

use crate::engine::{GameState, Tetris};
use crate::piece::Piece;
use vstd::prelude::*;

verus! {

/// What the program is showing: the title, the running game, the pause
/// screen, the end of a game, or nothing any more.
#[derive(Clone, Copy, Debug, PartialEq, Eq, Structural)]
pub enum State {
    TitleScreen,
    Run,
    Paused,
    GameOver,
    Quit,
}

/// The keys the game tells apart; every other key is `Other`.
#[derive(Clone, Copy, Debug, PartialEq, Eq, Structural)]
pub enum Key {
    Left,
    Right,
    Up,
    Down,
    A,
    D,
    W,
    Q,
    Space,
    P,
    Other,
}

/// What the driver hands the program.
#[derive(Clone, Copy, Debug, PartialEq, Eq, Structural)]
pub enum Event {
    /// The clock stands at `now` milliseconds; since the last event the
    /// key `press` was pressed and the key `release` let go of, if any.
    Tick { now: u64, press: Option<Key>, release: Option<Key> },
    /// The player wants to leave.
    Quit,
}

/// Where a screen of text leads: to `next_state` once a key is pressed,
/// and nowhere before that.
pub fn show_text_screen(press: Option<Key>, next_state: State) -> (next: Option<State>)
    ensures
        next == (if press is Some {
            Some(next_state)
        } else {
            None::<State>
        }),
{
    match press {
        Some(_) => Some(next_state),
        None => None,
    }
}

/// What a screen of text is followed by: the running game once a key is
/// pressed, the same screen before that.
pub open spec fn after_text_screen(state: State, press: Option<Key>) -> State {
    if press is Some {
        State::Run
    } else {
        state
    }
}

/// What the program shows after an event, and what the event does to the
/// game.
///
/// A wish to leave ends everything, and what has ended stays so. On the
/// title, the pause screen and the end of a game, a key pressed leads to
/// the running game, which after the end of a game is a new one; nothing
/// else happens there. In the running game the event is a tick of the
/// game, which says what is shown next.
pub fn next_state(state: State, tetris: &mut Tetris, event: Event) -> (next: State)
    ensures
        match (state, event) {
            (State::Quit, _) | (_, Event::Quit) => {
                &&& next == State::Quit
                &&& final(tetris)@ == old(tetris)@
            },
            (State::Run, Event::Tick { now, press, release }) => exists|fresh: Piece|
                fresh.is_spawn() && (final(tetris)@, next) == #[trigger] old(tetris)@.tick(
                    now,
                    press,
                    release,
                    fresh,
                ),
            (State::GameOver, Event::Tick { now, press, release }) => if press is Some {
                &&& next == State::Run
                &&& final(tetris)@.falling is Some
                &&& final(tetris)@.piece().is_spawn()
                &&& final(tetris)@.next.is_spawn()
                &&& final(tetris)@ == GameState::fresh(
                    now,
                    final(tetris)@.piece(),
                    final(tetris)@.next,
                )
            } else {
                &&& next == State::GameOver
                &&& final(tetris)@ == old(tetris)@
            },
            (_, Event::Tick { now, press, release }) => {
                &&& next == after_text_screen(state, press)
                &&& final(tetris)@ == old(tetris)@
            },
        },
{
    match event {
        Event::Quit => State::Quit,
        Event::Tick { now, press, release } => match state {
            State::TitleScreen => match show_text_screen(press, State::Run) {
                Some(next) => next,
                None => State::TitleScreen,
            },
            State::Run => tetris.run(now, press, release),
            State::Paused => match show_text_screen(press, State::Run) {
                Some(next) => next,
                None => State::Paused,
            },
            State::GameOver => match show_text_screen(press, State::Run) {
                Some(next) => {
                    *tetris = Tetris::new(now);
                    next
                },
                None => State::GameOver,
            },
            State::Quit => State::Quit,
        },
    }
}

} // verus!
