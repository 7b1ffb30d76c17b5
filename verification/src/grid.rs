//! The grid, its cells, and the arithmetic that moves a cell around on it.

use crate::direction::Direction;
use vstd::prelude::*;

verus! {

/// Number of rows of the grid.
pub const ROWS: usize = 25;

/// Number of columns of the grid.
pub const COLS: usize = 80;

/// Side of the square block that one segment of the snake stands for. The
/// head moves by this many cells on every tick.
pub const BLOCK_SIZE: usize = 2;

/// Number of segments that the snake's storage can hold: the number of
/// whole blocks that make up the area of the grid.
pub const MAX_SNAKE_LENGTH: usize = 500;

/// A cell, as (row, column).
pub type Position = (u16, u16);

/// The cell lies on the grid.
pub open spec fn in_grid(p: Position) -> bool {
    p.0 < ROWS && p.1 < COLS
}

/// Both coordinates of the cell are multiples of the block size. The head
/// starts on such a cell and moves by whole blocks, so the snake never leaves
/// this lattice.
pub open spec fn aligned(p: Position) -> bool {
    p.0 as int % BLOCK_SIZE as int == 0 && p.1 as int % BLOCK_SIZE as int == 0
}

/// The value that a coordinate takes when it is computed in sixteen unsigned
/// bits: what is left of `v` after division by 65536.
pub open spec fn wrapped(v: int) -> u16 {
    (v % 0x1_0000) as u16
}

/// Where one step in direction `d` would lead from `p` on an unbounded plane.
pub open spec fn displaced(p: Position, d: Direction) -> (int, int) {
    match d {
        Direction::Up => (p.0 - BLOCK_SIZE, p.1 as int),
        Direction::Down => (p.0 + BLOCK_SIZE, p.1 as int),
        Direction::Left => (p.0 as int, p.1 - BLOCK_SIZE),
        Direction::Right => (p.0 as int, p.1 + BLOCK_SIZE),
    }
}

/// The cell one step away from `p` in direction `d`, each coordinate wrapped
/// to sixteen bits. A step across the top or the left edge therefore gives a
/// coordinate far beyond the grid rather than a negative one.
pub open spec fn moved(p: Position, d: Direction) -> Position {
    (wrapped(displaced(p, d).0), wrapped(displaced(p, d).1))
}

/// The `k`-th cell of the diagonal walk that starts at `start`: row and
/// column both grow by `k`, each folded back into the grid.
pub open spec fn probe(start: Position, k: nat) -> Position {
    (((start.0 + k) % ROWS as int) as u16, ((start.1 + k) % COLS as int) as u16)
}

/// Reports whether the cell lies on the grid.
pub fn is_in_grid(p: Position) -> (b: bool)
    ensures
        b == in_grid(p),
{
    p.0 < ROWS as u16 && p.1 < COLS as u16
}

/// Reports whether the cell lies on the block lattice.
pub fn is_aligned(p: Position) -> (b: bool)
    ensures
        b == aligned(p),
{
    p.0 % (BLOCK_SIZE as u16) == 0 && p.1 % (BLOCK_SIZE as u16) == 0
}

/// Takes one step from `p` in direction `d`, in wrapping arithmetic.
pub fn step(p: Position, d: Direction) -> (q: Position)
    ensures
        q == moved(p, d),
{
    match d {
        Direction::Up => (p.0.wrapping_sub(BLOCK_SIZE as u16), p.1),
        Direction::Down => (p.0.wrapping_add(BLOCK_SIZE as u16), p.1),
        Direction::Left => (p.0, p.1.wrapping_sub(BLOCK_SIZE as u16)),
        Direction::Right => (p.0, p.1.wrapping_add(BLOCK_SIZE as u16)),
    }
}

/// Takes one step of the diagonal walk from a cell of the grid.
pub fn next_probe(p: Position) -> (q: Position)
    requires
        in_grid(p),
    ensures
        q == probe(p, 1),
        in_grid(q),
{
    ((p.0 + 1) % ROWS as u16, (p.1 + 1) % COLS as u16)
}

/// The storage has one place for every block of the grid's area.
pub proof fn lemma_capacity_counts_blocks()
    ensures
        MAX_SNAKE_LENGTH == ROWS * COLS / (BLOCK_SIZE * BLOCK_SIZE),
{
    assert(25 * 80 / (2 * 2) == 500int) by (nonlinear_arith);
}

/// The diagonal walk never leaves the grid.
pub proof fn lemma_probe_in_grid(start: Position, k: nat)
    ensures
        in_grid(probe(start, k)),
{
}

/// Walking `j` cells and then `k` more is walking `j + k` cells.
pub proof fn lemma_probe_adds(start: Position, j: nat, k: nat)
    ensures
        probe(probe(start, j), k) == probe(start, j + k),
{
    let r = (start.0 + j) % ROWS as int;
    let c = (start.1 + j) % COLS as int;
    assert((r + k) % ROWS as int == (start.0 + j + k) % ROWS as int);
    assert((c + k) % COLS as int == (start.1 + j + k) % COLS as int);
}

/// On the grid, wrapping and bounds checking together are the same as moving
/// on an unbounded plane and then asking whether the grid was left: the moved
/// cell is on the grid exactly when the unbounded step stays on it, and then
/// the two agree. A step across the top or the left edge wraps to a coordinate
/// beyond every row and column, so the one bounds check catches all four walls.
pub proof fn lemma_wrap_detects_walls(p: Position, d: Direction)
    requires
        in_grid(p),
    ensures
        in_grid(moved(p, d)) <==> (0 <= displaced(p, d).0 < ROWS && 0 <= displaced(p, d).1 < COLS),
        in_grid(moved(p, d)) ==> moved(p, d).0 == displaced(p, d).0 && moved(p, d).1 == displaced(
            p,
            d,
        ).1,
{
}

/// A step back undoes a step, also where the step wrapped.
pub proof fn lemma_step_back(p: Position, d: Direction)
    ensures
        moved(moved(p, d), d.reversed()) == p,
{
}

/// A step keeps a cell on the block lattice, even where it wraps.
pub proof fn lemma_moved_aligned(p: Position, d: Direction)
    requires
        aligned(p),
    ensures
        aligned(moved(p, d)),
{
}

} // verus!
