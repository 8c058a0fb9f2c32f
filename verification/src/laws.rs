//! What holds of every game, tick after tick.

use crate::board::{
    cell_fits, lemma_collapsed_is_grid, lemma_merged_is_grid, lemma_valid_position_bounds,
    lemma_valid_position_shifted, merged, valid_position, Grid,
};
use crate::engine::{drop_distance, lemma_drop_distance, level_of, GameState};
use crate::piece::{lemma_rotations_undo_each_other, Piece};
use crate::shape::lemma_middle_row_occupied;
use crate::state::{Key, State};
use vstd::prelude::*;

verus! {

/// What one tick is given.
pub struct TickInput {
    pub now: u64,
    pub press: Option<Key>,
    pub release: Option<Key>,
    pub fresh: Piece,
}

/// The game after the ticks given, one after the other.
pub open spec fn after_ticks(s: GameState, inputs: Seq<TickInput>) -> GameState
    decreases inputs.len(),
{
    if inputs.len() == 0 {
        s
    } else {
        let t = inputs.last();
        after_ticks(s, inputs.drop_last()).tick(t.now, t.press, t.release, t.fresh).0
    }
}

/// A piece in play that has moved to where it fits, by a step sideways or
/// down, is in play there, and where it is said to be.
proof fn lemma_move_in_play(g: Grid, p: Piece, dx: int, dy: int)
    requires
        p.in_play(),
        0 <= dy,
        valid_position(g, p, dx, dy),
    ensures
        p.shifted(dx, dy).in_play(),
        p.shifted(dx, dy).x == p.x + dx,
        p.shifted(dx, dy).y == p.y + dy,
{
    lemma_valid_position_bounds(g, p, dx, dy);
}

/// A tick never lowers the score, and with it never the level.
pub proof fn lemma_tick_score(
    s: GameState,
    now: u64,
    press: Option<Key>,
    release: Option<Key>,
    fresh: Piece,
)
    ensures
        s.tick(now, press, release, fresh).0.score >= s.score,
        level_of(s.tick(now, press, release, fresh).0.score as int) >= level_of(s.score as int),
{
}

/// What holds of every game holds after a key is pressed.
proof fn lemma_pressed_wf(s: GameState, key: Option<Key>, now: u64)
    requires
        s.wf(),
        s.falling is Some,
    ensures
        s.pressed(key, now).wf(),
        s.pressed(key, now).falling is Some,
        s.pressed(key, now).board == s.board,
{
    let p = s.piece();
    let g = s.board;
    match key {
        Some(Key::Left) | Some(Key::A) => {
            if valid_position(g, p, -1, 0) {
                lemma_move_in_play(g, p, -1, 0);
            }
        },
        Some(Key::Right) | Some(Key::D) => {
            if valid_position(g, p, 1, 0) {
                lemma_move_in_play(g, p, 1, 0);
            }
        },
        Some(Key::Up) | Some(Key::W) | Some(Key::Q) => {
            lemma_rotations_undo_each_other(p);
        },
        Some(Key::Down) => {
            if valid_position(g, p, 0, 1) {
                lemma_move_in_play(g, p, 0, 1);
            }
        },
        Some(Key::Space) => {
            lemma_drop_distance(g, p);
            if drop_distance(g, p) > 0 {
                lemma_move_in_play(g, p, 0, drop_distance(g, p));
            }
        },
        _ => {},
    }
}

/// What holds of every game holds after a held movement has gone on.
proof fn lemma_repeated_wf(s: GameState, now: u64)
    requires
        s.wf(),
        s.falling is Some,
    ensures
        s.repeated_sideways(now).wf(),
        s.repeated_sideways(now).falling is Some,
        s.repeated_sideways(now).repeated_down(now).wf(),
        s.repeated_sideways(now).repeated_down(now).falling is Some,
{
    let p = s.piece();
    let g = s.board;
    if valid_position(g, p, -1, 0) {
        lemma_move_in_play(g, p, -1, 0);
    }
    if valid_position(g, p, 1, 0) {
        lemma_move_in_play(g, p, 1, 0);
    }
    let slid = s.repeated_sideways(now);
    assert(slid.wf());
    let q = slid.piece();
    if valid_position(g, q, 0, 1) {
        lemma_move_in_play(g, q, 0, 1);
    }
}

/// What holds of every game holds after gravity has acted.
proof fn lemma_fallen_wf(s: GameState, now: u64)
    requires
        s.wf(),
        s.falling is Some,
    ensures
        s.fallen(now).wf(),
{
    let p = s.piece();
    let g = s.board;
    if valid_position(g, p, 0, 1) {
        lemma_move_in_play(g, p, 0, 1);
    } else {
        lemma_merged_is_grid(g, p);
        lemma_collapsed_is_grid(merged(g, p));
    }
}

/// What holds of every game holds after a tick.
pub proof fn lemma_tick_wf(
    s: GameState,
    now: u64,
    press: Option<Key>,
    release: Option<Key>,
    fresh: Piece,
)
    requires
        s.wf(),
        fresh.in_play(),
    ensures
        s.tick(now, press, release, fresh).0.wf(),
{
    let eased = s.spawned(now, fresh).released(release);
    assert(eased.wf());
    if !s.spawn_blocked() && press != Some(Key::P) {
        lemma_pressed_wf(eased, press, now);
        let acted = eased.pressed(press, now);
        lemma_repeated_wf(acted, now);
        lemma_fallen_wf(acted.repeated_sideways(now).repeated_down(now), now);
    }
}

/// Over any run of ticks the score never falls, and neither does the
/// level. From a game of which holds what holds of every game, with
/// pieces in play to take for the next ones, the same holds of the game
/// after the ticks: its level is the one of its score.
pub proof fn lemma_score_never_falls(s: GameState, inputs: Seq<TickInput>)
    ensures
        after_ticks(s, inputs).score >= s.score,
        level_of(after_ticks(s, inputs).score as int) >= level_of(s.score as int),
        s.wf() && (forall|i: int| 0 <= i < inputs.len() ==> (#[trigger] inputs[i]).fresh.in_play())
            ==> after_ticks(s, inputs).wf(),
    decreases inputs.len(),
{
    if inputs.len() > 0 {
        let t = inputs.last();
        let before = after_ticks(s, inputs.drop_last());
        lemma_score_never_falls(s, inputs.drop_last());
        lemma_tick_score(before, t.now, t.press, t.release, t.fresh);
        if s.wf() && (forall|i: int|
            0 <= i < inputs.len() ==> (#[trigger] inputs[i]).fresh.in_play()) {
            assert forall|i: int| 0 <= i < inputs.drop_last().len() implies (
            #[trigger] inputs.drop_last()[i]).fresh.in_play() by {
                assert(inputs.drop_last()[i] == inputs[i]);
            }
            assert(inputs[inputs.len() - 1].fresh.in_play());
            lemma_tick_wf(before, t.now, t.press, t.release, t.fresh);
        }
    }
}

/// A turn that would put the piece where it does not fit leaves the piece
/// as it was, rotation state and position, and the rest of the game too.
pub proof fn lemma_rotation_rollback(s: GameState, now: u64)
    requires
        s.falling is Some,
    ensures
        !valid_position(s.board, s.piece().rotated_forward(), 0, 0) ==> s.pressed(
            Some(Key::Up),
            now,
        ) == s && s.pressed(Some(Key::W), now) == s,
        !valid_position(s.board, s.piece().rotated_backward(), 0, 0) ==> s.pressed(
            Some(Key::Q),
            now,
        ) == s,
{
}

/// A dropped piece keeps its column, shape, rotation state and color and
/// ends no higher than it was, on the lowest row that it reaches through
/// rows where it fits: by one more row down it would not fit. Where it
/// fitted before the drop it fits after it, so that none of its cells is
/// under the floor; where it could not go down at all it has not moved.
pub proof fn lemma_hard_drop_lands(s: GameState, now: u64)
    requires
        s.falling is Some,
        s.piece().in_play(),
    ensures
        ({
            let p = s.piece();
            let q = s.pressed(Some(Key::Space), now).piece();
            &&& q == (Piece { y: q.y, ..p })
            &&& q.y >= p.y
            &&& forall|k: int| 1 <= k <= q.y - p.y ==> #[trigger] valid_position(s.board, p, 0, k)
            &&& !valid_position(s.board, q, 0, 1)
            &&& valid_position(s.board, p, 0, 0) ==> valid_position(s.board, q, 0, 0)
            &&& !valid_position(s.board, p, 0, 1) ==> q == p
        }),
{
    let p = s.piece();
    let g = s.board;
    let d = drop_distance(g, p);
    lemma_drop_distance(g, p);
    lemma_valid_position_shifted(g, p, 0, d, 0, 1);
    lemma_valid_position_shifted(g, p, 0, d, 0, 0);
    if d > 0 {
        assert(valid_position(g, p, 0, d));
    }
}

/// Where no piece is falling and the next one does not fit where it
/// appears, the tick ends the game, and leaves board and score as they
/// were.
pub proof fn lemma_blocked_spawn_ends_game(
    s: GameState,
    now: u64,
    press: Option<Key>,
    release: Option<Key>,
    fresh: Piece,
)
    requires
        s.falling is None,
        !valid_position(s.board, s.next, 0, 0),
    ensures
        s.tick(now, press, release, fresh).1 == State::GameOver,
        s.tick(now, press, release, fresh).0.board == s.board,
        s.tick(now, press, release, fresh).0.score == s.score,
{
}

/// On a board whose two middle cells of the top row are settled, no piece
/// fits at the spawn position: with no piece falling, the tick ends the
/// game.
pub proof fn lemma_settled_top_blocks_spawn(
    s: GameState,
    now: u64,
    press: Option<Key>,
    release: Option<Key>,
    fresh: Piece,
)
    requires
        s.falling is None,
        s.next.is_spawn(),
        s.board[0][4] is Some,
        s.board[0][5] is Some,
    ensures
        !valid_position(s.board, s.next, 0, 0),
        s.tick(now, press, release, fresh).1 == State::GameOver,
        s.tick(now, press, release, fresh).0.board == s.board,
{
    let p = s.next;
    lemma_middle_row_occupied(p.shape, p.rotation as int);
    if p.filled(1, 2) {
        assert(!cell_fits(s.board, p.x + 1 + 0, p.y + 2 + 0));
    } else {
        assert(p.filled(2, 2));
        assert(!cell_fits(s.board, p.x + 2 + 0, p.y + 2 + 0));
    }
}

/// A piece in play that can move by `dx` columns and `dy` rows fits where
/// it then is.
proof fn lemma_moved_piece_fits(g: Grid, p: Piece, dx: int, dy: int)
    requires
        p.in_play(),
        0 <= dy,
        valid_position(g, p, dx, dy),
    ensures
        valid_position(g, p.shifted(dx, dy), 0, 0),
{
    lemma_valid_position_bounds(g, p, dx, dy);
    lemma_valid_position_shifted(g, p, dx, dy, 0, 0);
}

/// A piece that fits still fits after a key is pressed.
proof fn lemma_pressed_fits(s: GameState, key: Option<Key>, now: u64)
    requires
        s.wf(),
        s.falling is Some,
        s.piece_fits(),
    ensures
        s.pressed(key, now).piece_fits(),
{
    let p = s.piece();
    let g = s.board;
    match key {
        Some(Key::Left) | Some(Key::A) => {
            if valid_position(g, p, -1, 0) {
                lemma_moved_piece_fits(g, p, -1, 0);
            }
        },
        Some(Key::Right) | Some(Key::D) => {
            if valid_position(g, p, 1, 0) {
                lemma_moved_piece_fits(g, p, 1, 0);
            }
        },
        Some(Key::Down) => {
            if valid_position(g, p, 0, 1) {
                lemma_moved_piece_fits(g, p, 0, 1);
            }
        },
        Some(Key::Space) => {
            lemma_drop_distance(g, p);
            let d = drop_distance(g, p);
            if d > 0 {
                assert(valid_position(g, p, 0, d));
                lemma_moved_piece_fits(g, p, 0, d);
            } else {
                assert(p.shifted(0, 0) == p);
            }
        },
        _ => {},
    }
}

/// A piece that fits still fits after a held movement has gone on.
proof fn lemma_repeated_fits(s: GameState, now: u64)
    requires
        s.wf(),
        s.falling is Some,
        s.piece_fits(),
    ensures
        s.repeated_sideways(now).repeated_down(now).piece_fits(),
{
    let p = s.piece();
    let g = s.board;
    if valid_position(g, p, -1, 0) {
        lemma_moved_piece_fits(g, p, -1, 0);
    }
    if valid_position(g, p, 1, 0) {
        lemma_moved_piece_fits(g, p, 1, 0);
    }
    lemma_repeated_wf(s, now);
    let slid = s.repeated_sideways(now);
    assert(slid.piece_fits());
    let q = slid.piece();
    if valid_position(g, q, 0, 1) {
        lemma_moved_piece_fits(g, q, 0, 1);
    }
}

/// In a running game the falling piece fits where it is: where it fitted
/// before a tick, or there was none, and the tick does not end the game,
/// the piece that falls after the tick fits.
pub proof fn lemma_tick_keeps_piece_fitting(
    s: GameState,
    now: u64,
    press: Option<Key>,
    release: Option<Key>,
    fresh: Piece,
)
    requires
        s.wf(),
        fresh.in_play(),
        s.piece_fits(),
    ensures
        s.tick(now, press, release, fresh).1 != State::GameOver ==> s.tick(
            now,
            press,
            release,
            fresh,
        ).0.piece_fits(),
{
    let eased = s.spawned(now, fresh).released(release);
    if !s.spawn_blocked() {
        assert(eased.wf());
        assert(eased.piece_fits());
        if press != Some(Key::P) {
            lemma_pressed_wf(eased, press, now);
            lemma_pressed_fits(eased, press, now);
            let acted = eased.pressed(press, now);
            lemma_repeated_wf(acted, now);
            lemma_repeated_fits(acted, now);
            let sunk = acted.repeated_sideways(now).repeated_down(now);
            let p = sunk.piece();
            if valid_position(sunk.board, p, 0, 1) {
                lemma_moved_piece_fits(sunk.board, p, 0, 1);
            }
        }
    }
}

/// Where no row of the board is complete before a tick, none is after it.
pub proof fn lemma_tick_leaves_no_complete_row(
    s: GameState,
    now: u64,
    press: Option<Key>,
    release: Option<Key>,
    fresh: Piece,
)
    requires
        s.wf(),
        fresh.in_play(),
        s.no_complete_row(),
    ensures
        s.tick(now, press, release, fresh).0.no_complete_row(),
{
    let eased = s.spawned(now, fresh).released(release);
    if !s.spawn_blocked() && press != Some(Key::P) {
        assert(eased.wf());
        lemma_pressed_wf(eased, press, now);
        let acted = eased.pressed(press, now);
        lemma_repeated_wf(acted, now);
        let sunk = acted.repeated_sideways(now).repeated_down(now);
        assert(sunk.board == s.board);
        lemma_merged_is_grid(sunk.board, sunk.piece());
        lemma_collapsed_is_grid(merged(sunk.board, sunk.piece()));
    }
}

} // verus!
