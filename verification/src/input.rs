//! Key presses, as far as the game tells them apart.

use crate::direction::Direction;
use crate::game::GameState;
use crate::model::Snapshot;
use vstd::prelude::*;

verus! {

/// A key named by its place on the keyboard. The game knows the four arrows
/// and the letter R; every other key is `Other`.
#[derive(Copy, Debug, Clone, Eq, PartialEq, Structural)]
pub enum KeyCode {
    ArrowUp,
    ArrowDown,
    ArrowLeft,
    ArrowRight,
    R,
    Other,
}

/// A key press as the keyboard driver hands it on: a key that stands for no
/// character, or the character that was typed.
#[derive(Copy, Debug, Clone, Eq, PartialEq, Structural)]
pub enum DecodedKey {
    RawKey(KeyCode),
    Unicode(char),
}

/// The key asks for a new session: the R key, or the letter in either case.
pub open spec fn asks_restart(key: DecodedKey) -> bool {
    key == DecodedKey::RawKey(KeyCode::R) || key == DecodedKey::Unicode('r') || key
        == DecodedKey::Unicode('R')
}

/// The heading that an arrow key stands for; other keys stand for none.
pub open spec fn heading_of(key: DecodedKey) -> Option<Direction> {
    match key {
        DecodedKey::RawKey(KeyCode::ArrowUp) => Some(Direction::Up),
        DecodedKey::RawKey(KeyCode::ArrowDown) => Some(Direction::Down),
        DecodedKey::RawKey(KeyCode::ArrowLeft) => Some(Direction::Left),
        DecodedKey::RawKey(KeyCode::ArrowRight) => Some(Direction::Right),
        _ => None,
    }
}

/// Reports whether the key asks for a new session.
pub fn is_restart(key: DecodedKey) -> (b: bool)
    ensures
        b == asks_restart(key),
{
    match key {
        DecodedKey::RawKey(code) => match code {
            KeyCode::R => true,
            _ => false,
        },
        DecodedKey::Unicode(c) => c == 'r' || c == 'R',
    }
}

/// Maps an arrow key to its heading.
pub fn direction_for(key: DecodedKey) -> (d: Option<Direction>)
    ensures
        d == heading_of(key),
{
    match key {
        DecodedKey::RawKey(code) => match code {
            KeyCode::ArrowUp => Some(Direction::Up),
            KeyCode::ArrowDown => Some(Direction::Down),
            KeyCode::ArrowLeft => Some(Direction::Left),
            KeyCode::ArrowRight => Some(Direction::Right),
            _ => None,
        },
        DecodedKey::Unicode(_) => None,
    }
}

impl Snapshot {
    /// The state after a key press: a finished session starts afresh on the
    /// restart key, and nothing else has any effect.
    pub open spec fn keyed(self, key: DecodedKey) -> Snapshot {
        if self.status is Over && asks_restart(key) {
            Snapshot::initial()
        } else {
            self
        }
    }
}

impl GameState {
    /// Takes a key press. Once the session is over, the restart key starts a
    /// new one; every other press, and every press during a session, leaves
    /// the state as it is.
    pub fn key(&mut self, key: DecodedKey)
        ensures
            final(self)@ == old(self)@.keyed(key),
            !(old(self).status is Over && asks_restart(key)) ==> *final(self) == *old(self),
            old(self).wf() ==> final(self).wf(),
    {
        if self.is_over() && is_restart(key) {
            self.reset();
        }
    }
}

} // verus!
