//! What the display is asked to show.

use crate::game::GameState;
use crate::grid::{in_grid, is_in_grid, Position, COLS, MAX_SNAKE_LENGTH, ROWS};
use vstd::prelude::*;

verus! {

/// The colours that the game paints with.
#[derive(Copy, Debug, Clone, Eq, PartialEq, Structural)]
pub enum Color {
    Black,
    LightGreen,
    Red,
}

/// Colour of the empty grid.
pub const COLOR_BACKGROUND: Color = Color::Black;

/// Colour of the snake.
pub const COLOR_SNAKE: Color = Color::LightGreen;

/// Colour of the food.
pub const COLOR_FOOD: Color = Color::Red;

/// The character that stands for one segment of the snake.
pub const SNAKE_SYMBOL: char = '*';

/// One character to put on the screen.
#[derive(Copy, Debug, Clone, Eq, PartialEq, Structural)]
pub struct Glyph {
    pub symbol: char,
    pub col: usize,
    pub row: usize,
    pub foreground: Color,
    pub background: Color,
}

/// How a segment at `p` is shown.
pub open spec fn segment_glyph(p: Position) -> Glyph {
    Glyph {
        symbol: SNAKE_SYMBOL,
        col: p.1 as usize,
        row: p.0 as usize,
        foreground: COLOR_SNAKE,
        background: COLOR_BACKGROUND,
    }
}

/// The segments that can be shown: all of them, but for a head that is off
/// the grid.
pub open spec fn visible(body: Seq<Position>) -> Seq<Position> {
    if in_grid(body[0]) {
        body
    } else {
        body.skip(1)
    }
}

impl GameState {
    /// Lists what the display has to show of the snake: one character for
    /// each segment, head first. A head that has run into a wall is off the
    /// grid and is left out, so every entry lies on the screen.
    pub fn draw_snake(&self) -> (glyphs: Vec<Glyph>)
        requires
            self.wf(),
        ensures
            glyphs@.len() == visible(self@.body).len(),
            forall|i: int|
                0 <= i < glyphs@.len() ==> glyphs@[i] == segment_glyph(
                    #[trigger] visible(self@.body)[i],
                ),
            forall|i: int|
                0 <= i < glyphs@.len() ==> (#[trigger] glyphs@[i]).row < ROWS && glyphs@[i].col
                    < COLS,
    {
        let first: usize = if is_in_grid(self.snake[0]) {
            0
        } else {
            1
        };
        assert(self@.body[0] == self.snake[0]);
        let ghost shown = visible(self@.body);
        assert(shown =~= self.snake@.subrange(first as int, self.length as int));
        let mut glyphs: Vec<Glyph> = Vec::new();
        let mut i: usize = first;
        while i < self.length
            invariant
                first <= i <= self.length <= MAX_SNAKE_LENGTH,
                first <= 1,
                self.wf(),
                first == 0 ==> in_grid(self.snake[0]),
                glyphs@ == self.snake@.subrange(first as int, i as int).map_values(
                    |p: Position| segment_glyph(p),
                ),
                forall|j: int|
                    0 <= j < glyphs@.len() ==> glyphs@[j].row < ROWS && glyphs@[j].col < COLS,
            decreases self.length - i,
        {
            let (row, col) = self.snake[i];
            assert(self@.body[i as int] == self.snake[i as int]);
            glyphs.push(
                Glyph {
                    symbol: SNAKE_SYMBOL,
                    col: col as usize,
                    row: row as usize,
                    foreground: COLOR_SNAKE,
                    background: COLOR_BACKGROUND,
                },
            );
            assert(glyphs@ =~= self.snake@.subrange(first as int, i + 1).map_values(
                |p: Position| segment_glyph(p),
            ));
            i += 1;
        }
        glyphs
    }
}

} // verus!
