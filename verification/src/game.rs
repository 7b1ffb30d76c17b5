//! The running game: the state as it is stored, and the operations on it.

use crate::direction::Direction;
use crate::grid::{
    aligned, in_grid, is_aligned, is_in_grid, lemma_moved_aligned, lemma_probe_adds, next_probe,
    probe, step, Position, COLS, MAX_SNAKE_LENGTH, ROWS,
};
use crate::model::{
    bites_itself, first_free_at, grown, lemma_spawn_finds_free_cell, lemma_spawned_after,
    probes_needed, slid, Collision, Snapshot, Status, INITIAL_LENGTH,
};
use vstd::prelude::*;

verus! {

/// The state of one session.
///
/// The snake lives in storage of fixed size. Only the first `length` entries
/// of `snake` are segments, head first; what lies beyond them is scratch
/// space that no operation reads.
pub struct GameState {
    pub snake: [Position; MAX_SNAKE_LENGTH],
    pub length: usize,
    pub direction: Direction,
    pub food: Position,
    pub score: usize,
    pub status: Status,
}

impl View for GameState {
    type V = Snapshot;

    open spec fn view(&self) -> Snapshot {
        Snapshot {
            body: self.snake@.subrange(0, self.length as int),
            direction: self.direction,
            food: self.food,
            score: self.score as nat,
            status: self.status,
        }
    }
}

impl GameState {
    /// The state is one that a session can be in: the length fits the
    /// storage and the state it stands for is well formed.
    pub open spec fn wf(&self) -> bool {
        &&& 0 < self.length <= MAX_SNAKE_LENGTH
        &&& self@.wf()
    }

    /// Starts a session: the head in the middle of the grid, ten segments,
    /// heading right, no score, and the first food placed by the diagonal
    /// walk from the top left corner.
    pub fn new() -> (game: GameState)
        ensures
            game.wf(),
            game@ == Snapshot::initial(),
    {
        let mut snake = [(0u16, 0u16); MAX_SNAKE_LENGTH];
        snake[0] = (ROWS as u16 / 2, COLS as u16 / 2);
        let mut game = GameState {
            snake,
            length: INITIAL_LENGTH,
            direction: Direction::Right,
            food: (0, 0),
            score: 0,
            status: Status::Running,
        };
        assert(game@.body =~= Snapshot::initial().body);
        game.spawn_food();
        proof {
            assert(probe((0u16, 0u16), 1) == (1u16, 1u16));
            assert(first_free_at(game@.body, (0u16, 0u16), 1));
            lemma_spawned_after(game@.body, (0u16, 0u16), 1);
        }
        game
    }

    /// Starts the session afresh, whatever state it was in.
    pub fn reset(&mut self)
        ensures
            final(self).wf(),
            final(self)@ == Snapshot::initial(),
    {
        *self = GameState::new();
    }

    /// Sets the heading for the next tick. Any heading is taken, also the one
    /// that turns the head back into the neck.
    pub fn update_direction(&mut self, direction: Direction)
        ensures
            *final(self) == (GameState { direction, ..*old(self) }),
            final(self)@ == old(self)@.turned(direction),
            old(self).wf() ==> final(self).wf(),
    {
        self.direction = direction;
    }

    /// Reports whether the state is one that a session can be in. A caller
    /// that has written to the fields finds out here whether the operations
    /// will accept the state.
    pub fn is_valid(&self) -> (b: bool)
        ensures
            b == self.wf(),
    {
        if self.length == 0 || self.length > MAX_SNAKE_LENGTH || !is_in_grid(self.food) {
            return false;
        }
        if !self.is_over() && !is_in_grid(self.snake[0]) {
            assert(self@.body[0] == self.snake[0]);
            return false;
        }
        let mut i: usize = 0;
        while i < self.length
            invariant
                i <= self.length <= MAX_SNAKE_LENGTH,
                forall|j: int| 0 <= j < i ==> aligned(#[trigger] self@.body[j]),
                forall|j: int| 1 <= j < i ==> in_grid(#[trigger] self@.body[j]),
            decreases self.length - i,
        {
            let segment = self.snake[i];
            assert(self@.body[i as int] == segment);
            if !is_aligned(segment) || (i > 0 && !is_in_grid(segment)) {
                return false;
            }
            i += 1;
        }
        assert(self@.body[0] == self.snake[0]);
        true
    }

    /// The cell of the head.
    pub fn head(&self) -> (p: Position)
        requires
            0 < self.length <= MAX_SNAKE_LENGTH,
        ensures
            p == self@.body[0],
    {
        self.snake[0]
    }

    /// The snake's segments, head first, without the unused storage.
    pub fn segments(&self) -> (body: Vec<Position>)
        requires
            self.length <= MAX_SNAKE_LENGTH,
        ensures
            body@ == self@.body,
    {
        let mut body: Vec<Position> = Vec::new();
        let mut i: usize = 0;
        while i < self.length
            invariant
                i <= self.length <= MAX_SNAKE_LENGTH,
                body@ == self.snake@.subrange(0, i as int),
            decreases self.length - i,
        {
            body.push(self.snake[i]);
            assert(body@ =~= self.snake@.subrange(0, i + 1));
            i += 1;
        }
        body
    }

    /// Number of segments of the snake.
    pub fn length(&self) -> (n: usize)
        ensures
            n == self.length,
    {
        self.length
    }

    /// The heading that the next tick will follow.
    pub fn direction(&self) -> (d: Direction)
        ensures
            d == self.direction,
    {
        self.direction
    }

    /// The cell of the food.
    pub fn food(&self) -> (p: Position)
        ensures
            p == self.food,
    {
        self.food
    }

    /// Number of times the snake has eaten.
    pub fn score(&self) -> (n: usize)
        ensures
            n == self.score,
    {
        self.score
    }

    /// What ended the session, if it has ended.
    pub fn collision(&self) -> (reason: Option<Collision>)
        ensures
            reason == match self.status {
                Status::Running => None::<Collision>,
                Status::Over(c) => Some(c),
            },
    {
        match self.status {
            Status::Running => None,
            Status::Over(c) => Some(c),
        }
    }

    /// Reports whether the session has ended.
    pub fn is_over(&self) -> (b: bool)
        ensures
            b == (self.status is Over),
    {
        match self.status {
            Status::Running => false,
            Status::Over(_) => true,
        }
    }

    /// Moves every segment one place towards the tail and puts `head` in
    /// front. The place just behind the tail takes the old tail, where the
    /// storage has such a place, so that a snake that grows finds it there.
    fn slide(&mut self, head: Position)
        requires
            0 < old(self).length <= MAX_SNAKE_LENGTH,
        ensures
            final(self).snake[0] == head,
            forall|i: int|
                1 <= i <= old(self).length && i < MAX_SNAKE_LENGTH ==> final(self).snake[i] == old(
                    self,
                ).snake[i - 1],
            final(self).length == old(self).length,
            final(self).direction == old(self).direction,
            final(self).food == old(self).food,
            final(self).score == old(self).score,
            final(self).status == old(self).status,
    {
        let top: usize = if self.length < MAX_SNAKE_LENGTH {
            self.length
        } else {
            MAX_SNAKE_LENGTH - 1
        };
        let mut i: usize = top;
        while i > 0
            invariant
                i <= top < MAX_SNAKE_LENGTH,
                forall|j: int| 0 <= j <= i ==> self.snake[j] == old(self).snake[j],
                forall|j: int| i < j <= top ==> self.snake[j] == old(self).snake[j - 1],
                self.length == old(self).length,
                self.direction == old(self).direction,
                self.food == old(self).food,
                self.score == old(self).score,
                self.status == old(self).status,
            decreases i,
        {
            self.snake[i] = self.snake[i - 1];
            i -= 1;
        }
        self.snake[0] = head;
    }

    /// Plays one tick.
    ///
    /// The head moves one block in the current direction, in wrapping
    /// arithmetic, and the body follows it. A head that has left the grid
    /// ends the session at the wall. A head on the food scores a point,
    /// lengthens the snake by the segment that its tail would have given up,
    /// unless the storage is full, and moves the food. A head on another
    /// segment ends the session. Once the session is over, a tick changes
    /// nothing.
    ///
    /// The score is a machine integer: a tick that scores needs room in it
    /// for one more point.
    pub fn update(&mut self)
        requires
            old(self).wf(),
            old(self)@.tick().score <= usize::MAX,
        ensures
            final(self).wf(),
            final(self)@ == old(self)@.tick(),
            old(self).status is Over ==> *final(self) == *old(self),
    {
        if self.is_over() {
            return ;
        }
        let new_head = step(self.snake[0], self.direction);
        proof {
            lemma_moved_aligned(self.snake[0], self.direction);
            assert(self@.body[0] == self.snake[0]);
        }
        self.slide(new_head);

        if !is_in_grid(new_head) {
            self.status = Status::Over(Collision::Wall);
            assert(self@.body =~= slid(old(self)@.body, new_head));
            assert forall|i: int| 0 <= i < self@.body.len() implies aligned(
                #[trigger] self@.body[i],
            ) by {
                if i > 0 {
                    assert(self@.body[i] == old(self)@.body[i - 1]);
                }
            }
            assert forall|i: int| 1 <= i < self@.body.len() implies in_grid(
                #[trigger] self@.body[i],
            ) by {
                assert(self@.body[i] == old(self)@.body[i - 1]);
            }
            return ;
        }
        if new_head.0 == self.food.0 && new_head.1 == self.food.1 {
            assert(new_head == self.food);
            self.score += 1;
            if self.length < MAX_SNAKE_LENGTH {
                self.length += 1;
            }
            assert(self@.body =~= grown(old(self)@.body, new_head));
            assert forall|i: int| 0 <= i < self@.body.len() implies aligned(
                #[trigger] self@.body[i],
            ) && (i >= 1 ==> in_grid(self@.body[i])) by {
                if i > 0 {
                    assert(self@.body[i] == old(self)@.body[i - 1]);
                }
            }
            self.spawn_food();
        } else {
            assert(self@.body =~= slid(old(self)@.body, new_head));
            assert forall|i: int| 0 <= i < self@.body.len() implies aligned(
                #[trigger] self@.body[i],
            ) && (i >= 1 ==> in_grid(self@.body[i])) by {
                if i > 0 {
                    assert(self@.body[i] == old(self)@.body[i - 1]);
                }
            }
        }
        let ghost next = old(self)@.tick();
        assert(self@ == Snapshot { status: Status::Running, ..next });
        let mut i: usize = 1;
        while i < self.length
            invariant
                1 <= i <= self.length,
                self.wf(),
                old(self).status is Running,
                next == old(self)@.tick(),
                self@ == (Snapshot { status: Status::Running, ..next }),
                next.status == if bites_itself(next.body) {
                    Status::Over(Collision::Body)
                } else {
                    Status::Running
                },
                next.body[0] == new_head,
                forall|j: int| 1 <= j < i ==> next.body[j] != new_head,
            decreases self.length - i,
        {
            let segment = self.snake[i];
            if new_head.0 == segment.0 && new_head.1 == segment.1 {
                self.status = Status::Over(Collision::Body);
                assert(next.body[i as int] == next.body[0]);
                return ;
            }
            i += 1;
        }
    }

    /// Returns true if the snake occupies the given cell, else false.
    pub fn is_snake_on_position(&self, position: Position) -> (b: bool)
        requires
            self.length <= MAX_SNAKE_LENGTH,
        ensures
            b == self@.body.contains(position),
    {
        let mut i: usize = 0;
        while i < self.length
            invariant
                i <= self.length <= MAX_SNAKE_LENGTH,
                forall|j: int| 0 <= j < i ==> self@.body[j] != position,
            decreases self.length - i,
        {
            let (row, col) = self.snake[i];
            if row == position.0 && col == position.1 {
                assert(self@.body[i as int] == position);
                return true;
            }
            i += 1;
        }
        false
    }

    /// Moves the food to the first cell of the diagonal walk from its old
    /// place that the snake leaves free, and returns that cell.
    ///
    /// The walk adds one to the row and one to the column at every step, each
    /// folded back into the grid, so it only ever visits the cells of one
    /// diagonal and not the whole grid. Nothing but the food changes.
    pub fn spawn_food(&mut self) -> (food: Position)
        requires
            old(self).wf(),
        ensures
            final(self).wf(),
            first_free_at(
                old(self)@.body,
                old(self).food,
                probes_needed(old(self)@.body, old(self).food),
            ),
            final(self)@ == old(self)@.respawned(),
            *final(self) == (GameState { food, ..*old(self) }),
            final(self)@.food_is_free(),
    {
        proof {
            lemma_spawn_finds_free_cell(self@.body, self.food);
        }
        let ghost mut k: nat = 1;
        let mut new_food = next_probe(self.food);
        while self.is_snake_on_position(new_food)
            invariant
                *self == *old(self),
                self.wf(),
                1 <= k <= probes_needed(self@.body, self.food),
                new_food == probe(self.food, k),
                in_grid(new_food),
                first_free_at(self@.body, self.food, probes_needed(self@.body, self.food)),
            decreases probes_needed(self@.body, self.food) - k,
        {
            proof {
                lemma_probe_adds(self.food, k, 1);
                k = k + 1;
            }
            new_food = next_probe(new_food);
        }
        self.food = new_food;
        new_food
    }
}

} // verus!
