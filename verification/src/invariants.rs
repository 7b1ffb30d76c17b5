//! What holds of every session, proved of the game as mathematics.

use crate::direction::Direction;
use crate::grid::{
    aligned, displaced, in_grid, lemma_moved_aligned, lemma_wrap_detects_walls, probe, COLS,
    MAX_SNAKE_LENGTH, ROWS,
};
use crate::input::DecodedKey;
use crate::model::{
    bites_itself, first_free_at, lemma_spawn_finds_free_cell, lemma_spawned_after, spawned,
    Collision, Snapshot, Status, INITIAL_LENGTH,
};
use vstd::prelude::*;

verus! {

/// What can happen to a session from outside.
pub enum Event {
    /// One tick of the clock.
    Tick,
    /// A new heading is set.
    Turn(Direction),
    /// The food is moved on.
    Spawn,
    /// A key is pressed.
    Key(DecodedKey),
    /// The session is started afresh.
    Reset,
}

impl Snapshot {
    /// The state after one event.
    pub open spec fn after(self, event: Event) -> Snapshot {
        match event {
            Event::Tick => self.tick(),
            Event::Turn(direction) => self.turned(direction),
            Event::Spawn => self.respawned(),
            Event::Key(key) => self.keyed(key),
            Event::Reset => Snapshot::initial(),
        }
    }

    /// The state after a run of events, the first of them first.
    pub open spec fn after_all(self, events: Seq<Event>) -> Snapshot
        decreases events.len(),
    {
        if events.len() == 0 {
            self
        } else {
            self.after_all(events.drop_last()).after(events.last())
        }
    }
}

/// A session starts in a well-formed state, with the food off the snake.
pub proof fn lemma_initial_state()
    ensures
        Snapshot::initial().wf(),
        Snapshot::initial().food_is_free(),
        Snapshot::initial().body.len() == INITIAL_LENGTH,
        Snapshot::initial().body[0] == ((ROWS / 2) as u16, (COLS / 2) as u16),
        Snapshot::initial().food == spawned(Snapshot::initial().body, (0u16, 0u16)),
{
    let body = Snapshot::initial().body;
    assert(probe((0u16, 0u16), 1) == (1u16, 1u16));
    assert(first_free_at(body, (0u16, 0u16), 1));
    lemma_spawned_after(body, (0u16, 0u16), 1);
}

/// A tick takes a well-formed state to a well-formed state.
pub proof fn lemma_tick_keeps_wf(s: Snapshot)
    requires
        s.wf(),
    ensures
        s.tick().wf(),
{
    let head = s.next_head();
    if s.status is Running {
        lemma_moved_aligned(s.body[0], s.direction);
        let body = s.tick().body;
        assert(body[0] == head);
        assert forall|i: int| 0 <= i < body.len() implies aligned(#[trigger] body[i]) && (i >= 1
            ==> in_grid(body[i])) by {
            if i > 0 {
                assert(body[i] == s.body[i - 1]);
            }
        }
        if in_grid(head) && head == s.food {
            lemma_spawn_finds_free_cell(body, s.food);
        }
    }
}

/// A tick keeps the food off the snake.
pub proof fn lemma_tick_keeps_food_free(s: Snapshot)
    requires
        s.wf(),
        s.food_is_free(),
    ensures
        s.tick().food_is_free(),
{
    let head = s.next_head();
    if s.status is Running {
        let t = s.tick();
        if in_grid(head) && head == s.food {
            lemma_moved_aligned(s.body[0], s.direction);
            assert forall|i: int| 0 <= i < t.body.len() implies aligned(#[trigger] t.body[i]) by {
                if i > 0 {
                    assert(t.body[i] == s.body[i - 1]);
                }
            }
            lemma_spawn_finds_free_cell(t.body, s.food);
        } else {
            assert forall|i: int| 0 <= i < t.body.len() implies t.body[i] != s.food by {
                if i > 0 {
                    assert(t.body[i] == s.body[i - 1]);
                }
            }
        }
    }
}

/// Whatever happens to a session, in whatever order, its state stays well
/// formed: the snake has at least one segment and never outgrows its
/// storage, and the food never lies on the snake.
pub proof fn lemma_every_state_is_sound(events: Seq<Event>)
    ensures
        Snapshot::initial().after_all(events).wf(),
        0 < Snapshot::initial().after_all(events).body.len() <= MAX_SNAKE_LENGTH,
        Snapshot::initial().after_all(events).food_is_free(),
    decreases events.len(),
{
    lemma_initial_state();
    if events.len() > 0 {
        lemma_every_state_is_sound(events.drop_last());
        let s = Snapshot::initial().after_all(events.drop_last());
        match events.last() {
            Event::Tick => {
                lemma_tick_keeps_wf(s);
                lemma_tick_keeps_food_free(s);
            },
            Event::Spawn => {
                lemma_spawn_finds_free_cell(s.body, s.food);
            },
            _ => {},
        }
    }
}

/// Once the session is over, a tick changes nothing.
pub proof fn lemma_over_is_final(s: Snapshot)
    requires
        s.status is Over,
    ensures
        s.tick() == s,
{
}

/// A tick never takes a point away and never gives more than one; the snake
/// never shrinks and never grows by more than one segment; the heading stays.
pub proof fn lemma_tick_counts_up(s: Snapshot)
    requires
        s.wf(),
    ensures
        s.tick().score == s.score || s.tick().score == s.score + 1,
        s.tick().body.len() == s.body.len() || s.tick().body.len() == s.body.len() + 1,
        s.tick().direction == s.direction,
{
}

/// Setting a heading stores it, whatever the heading was, and touches
/// nothing else; the later of two settings wins.
pub proof fn lemma_turn_overwrites(s: Snapshot, first: Direction, second: Direction)
    ensures
        s.turned(second).direction == second,
        s.turned(first).turned(second) == s.turned(second),
        s.turned(second).body == s.body,
        s.turned(second).food == s.food,
        s.turned(second).score == s.score,
        s.turned(second).status == s.status,
{
}

/// A step onto a free cell of the grid that holds no food moves the snake
/// and changes nothing else: the head is one block further on the unbounded
/// plane, the length and the score stay, and the session goes on.
pub proof fn lemma_plain_step(s: Snapshot)
    requires
        s.wf(),
        s.status is Running,
        in_grid(s.next_head()),
        s.next_head() != s.food,
        !s.body.drop_last().contains(s.next_head()),
    ensures
        s.tick().status is Running,
        s.tick().body[0].0 == displaced(s.body[0], s.direction).0,
        s.tick().body[0].1 == displaced(s.body[0], s.direction).1,
        s.tick().body.len() == s.body.len(),
        s.tick().score == s.score,
        s.tick().food == s.food,
{
    lemma_wrap_detects_walls(s.body[0], s.direction);
    let body = s.tick().body;
    if bites_itself(body) {
        let i = choose|i: int| 1 <= i < body.len() && #[trigger] body[i] == body[0];
        assert(s.body.drop_last()[i - 1] == s.next_head());
    }
}

/// A step that would leave the grid on the unbounded plane, across any of
/// the four edges, ends the session at the wall. Score and length stay.
pub proof fn lemma_wall_ends_session(s: Snapshot)
    requires
        s.wf(),
        s.status is Running,
        !(0 <= displaced(s.body[0], s.direction).0 < ROWS && 0 <= displaced(
            s.body[0],
            s.direction,
        ).1 < COLS),
    ensures
        s.tick().status == Status::Over(Collision::Wall),
        s.tick().score == s.score,
        s.tick().body.len() == s.body.len(),
        s.tick().food == s.food,
{
    lemma_wrap_detects_walls(s.body[0], s.direction);
}

/// A step onto the food, by a snake that the food does not lie on and that
/// has room to grow: the score and the length go up by one, the old body
/// follows the new head, the food moves to a cell off the longer snake, and
/// the session goes on.
pub proof fn lemma_eating_grows(s: Snapshot)
    requires
        s.wf(),
        s.status is Running,
        s.next_head() == s.food,
        s.food_is_free(),
        s.body.len() < MAX_SNAKE_LENGTH,
    ensures
        s.tick().status is Running,
        s.tick().score == s.score + 1,
        s.tick().body == seq![s.food] + s.body,
        s.tick().food != s.food,
        s.tick().food_is_free(),
        in_grid(s.tick().food),
{
    lemma_tick_keeps_food_free(s);
    lemma_tick_keeps_wf(s);
    let body = s.tick().body;
    assert(body[0] == s.food);
    if bites_itself(body) {
        let i = choose|i: int| 1 <= i < body.len() && #[trigger] body[i] == body[0];
        assert(s.body[i - 1] == s.food);
    }
}

/// A step onto a cell of the grid that holds no food but a segment of the
/// snake, other than the tail, which moves out of the way, ends the session.
pub proof fn lemma_biting_ends_session(s: Snapshot, i: int)
    requires
        s.wf(),
        s.status is Running,
        in_grid(s.next_head()),
        s.next_head() != s.food,
        0 <= i < s.body.len() - 1,
        s.body[i] == s.next_head(),
    ensures
        s.tick().status == Status::Over(Collision::Body),
        s.tick().score == s.score,
        s.tick().body.len() == s.body.len(),
{
    let body = s.tick().body;
    assert(body[i + 1] == s.body[i]);
}

} // verus!
