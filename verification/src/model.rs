//! The game as mathematics: what a state is, when it is well formed, and the
//! state that follows it after one tick.

use crate::direction::Direction;
use crate::grid::{
    aligned, in_grid, moved, probe, Position, COLS, MAX_SNAKE_LENGTH, ROWS,
};
use vstd::prelude::*;

verus! {

/// Number of segments of the snake at the start of a session.
pub const INITIAL_LENGTH: usize = 10;

/// What the snake ran into.
#[derive(Copy, Debug, Clone, Eq, PartialEq, Structural)]
pub enum Collision {
    /// The head left the grid.
    Wall,
    /// The head met a segment of the snake's own body.
    Body,
}

/// Whether the session goes on.
#[derive(Copy, Debug, Clone, Eq, PartialEq, Structural)]
pub enum Status {
    Running,
    /// The session has ended, for the reason given. Only a restart leaves
    /// this state.
    Over(Collision),
}

/// A state of the game, with the snake's unused storage left out.
pub struct Snapshot {
    /// The snake's segments, head first.
    pub body: Seq<Position>,
    pub direction: Direction,
    pub food: Position,
    pub score: nat,
    pub status: Status,
}

/// `k` steps of the diagonal walk from `food` lead to the first cell that
/// `body` leaves free.
pub open spec fn first_free_at(body: Seq<Position>, food: Position, k: nat) -> bool {
    &&& 1 <= k
    &&& !body.contains(probe(food, k))
    &&& forall|j: nat| 1 <= j < k ==> body.contains(#[trigger] probe(food, j))
}

/// Number of steps that the diagonal walk from `food` takes to reach a cell
/// that `body` leaves free.
pub open spec fn probes_needed(body: Seq<Position>, food: Position) -> nat {
    choose|k: nat| first_free_at(body, food, k)
}

/// The cell where new food appears: the first cell of the diagonal walk from
/// the old food that the snake does not occupy.
pub open spec fn spawned(body: Seq<Position>, food: Position) -> Position {
    probe(food, probes_needed(body, food))
}

/// Every cell of `body` lies on the block lattice.
pub open spec fn all_aligned(body: Seq<Position>) -> bool {
    forall|i: int| 0 <= i < body.len() ==> aligned(#[trigger] body[i])
}

/// The body after a step that does not lengthen it: the new head in front,
/// every segment one place nearer the tail, the old tail gone.
pub open spec fn slid(body: Seq<Position>, head: Position) -> Seq<Position> {
    seq![head] + body.drop_last()
}

/// The body after a step onto food: the new head in front of all the old
/// segments. A snake that already fills its storage keeps its length.
pub open spec fn grown(body: Seq<Position>, head: Position) -> Seq<Position> {
    if body.len() < MAX_SNAKE_LENGTH {
        seq![head] + body
    } else {
        slid(body, head)
    }
}

/// The head shares its cell with a later segment.
pub open spec fn bites_itself(body: Seq<Position>) -> bool {
    exists|i: int| 1 <= i < body.len() && #[trigger] body[i] == body[0]
}

impl Snapshot {
    /// The state in which every session starts: the head in the middle of the
    /// grid, the rest of the body parked in the top left corner, heading
    /// right, nothing eaten yet.
    pub open spec fn initial() -> Snapshot {
        Snapshot {
            body: Seq::new(
                INITIAL_LENGTH as nat,
                |i: int|
                    if i == 0 {
                        ((ROWS / 2) as u16, (COLS / 2) as u16)
                    } else {
                        (0u16, 0u16)
                    },
            ),
            direction: Direction::Right,
            food: (1u16, 1u16),
            score: 0,
            status: Status::Running,
        }
    }

    /// What every state of a session satisfies. The snake has at least one
    /// segment and fits its storage; the food is on the grid; every segment
    /// is on the block lattice; and every segment is on the grid, but for a
    /// head that has run into a wall.
    ///
    /// The lattice is what lets new food always find a place: the diagonal
    /// walk reaches only a fifth of the grid, which a snake free to lie
    /// anywhere could fill, but every other cell of the walk has an odd
    /// column, where no segment on the lattice can be.
    pub open spec fn wf(self) -> bool {
        &&& 0 < self.body.len() <= MAX_SNAKE_LENGTH
        &&& in_grid(self.food)
        &&& all_aligned(self.body)
        &&& forall|i: int| 1 <= i < self.body.len() ==> in_grid(#[trigger] self.body[i])
        &&& self.status is Running ==> in_grid(self.body[0])
    }

    /// The food does not lie on the snake.
    pub open spec fn food_is_free(self) -> bool {
        !self.body.contains(self.food)
    }

    /// The cell that the head enters on the next tick.
    pub open spec fn next_head(self) -> Position {
        moved(self.body[0], self.direction)
    }

    /// The state with another heading.
    pub open spec fn turned(self, direction: Direction) -> Snapshot {
        Snapshot { direction, ..self }
    }

    /// The state with the food moved on to the next free cell.
    pub open spec fn respawned(self) -> Snapshot {
        Snapshot { food: spawned(self.body, self.food), ..self }
    }

    /// The state after one tick.
    ///
    /// A session that is over stays as it is. Otherwise the head moves one
    /// block. If that takes it off the grid, the session ends at the wall.
    /// If it takes it onto the food, the score goes up, the snake grows and
    /// new food appears. Last, a head that now shares its cell with another
    /// segment ends the session.
    pub open spec fn tick(self) -> Snapshot {
        let head = self.next_head();
        if self.status is Over {
            self
        } else if !in_grid(head) {
            Snapshot {
                body: slid(self.body, head),
                status: Status::Over(Collision::Wall),
                ..self
            }
        } else if head == self.food {
            let body = grown(self.body, head);
            Snapshot {
                body,
                direction: self.direction,
                food: spawned(body, self.food),
                score: self.score + 1,
                status: if bites_itself(body) {
                    Status::Over(Collision::Body)
                } else {
                    Status::Running
                },
            }
        } else {
            let body = slid(self.body, head);
            Snapshot {
                body,
                status: if bites_itself(body) {
                    Status::Over(Collision::Body)
                } else {
                    Status::Running
                },
                ..self
            }
        }
    }
}

/// At most one number of steps leads to the first free cell.
pub proof fn lemma_first_free_unique(body: Seq<Position>, food: Position, k1: nat, k2: nat)
    requires
        first_free_at(body, food, k1),
        first_free_at(body, food, k2),
    ensures
        k1 == k2,
{
    if k1 < k2 {
        assert(body.contains(probe(food, k1)));
    } else if k2 < k1 {
        assert(body.contains(probe(food, k2)));
    }
}

/// The number of steps that leads to the first free cell names the new food.
pub proof fn lemma_spawned_after(body: Seq<Position>, food: Position, k: nat)
    requires
        first_free_at(body, food, k),
    ensures
        probes_needed(body, food) == k,
        spawned(body, food) == probe(food, k),
{
    lemma_first_free_unique(body, food, k, probes_needed(body, food));
}

/// A snake on the block lattice never blocks the diagonal walk for long: of
/// two cells in a row one has an odd column, so the first free cell is the
/// first or the second. The new food is on the grid and off the snake.
pub proof fn lemma_spawn_finds_free_cell(body: Seq<Position>, food: Position)
    requires
        all_aligned(body),
    ensures
        first_free_at(body, food, probes_needed(body, food)),
        probes_needed(body, food) == 1 || probes_needed(body, food) == 2,
        !body.contains(spawned(body, food)),
        in_grid(spawned(body, food)),
{
    let k: nat = if body.contains(probe(food, 1)) { 2 } else { 1 };
    if body.contains(probe(food, 1)) {
        let c = (food.1 + 1) % COLS as int;
        assert(aligned(probe(food, 1)));
        assert(c % 2 == 0);
        assert((food.1 + 2) % COLS as int == c + 1);
        assert(!aligned(probe(food, 2)));
        assert forall|j: nat| 1 <= j < 2 implies body.contains(#[trigger] probe(food, j)) by {
            assert(j == 1);
        }
    }
    assert(first_free_at(body, food, k));
    lemma_spawned_after(body, food, k);
}

} // verus!
