//! The cursor with which a player picks a character from a grid.
use vstd::prelude::*;

verus! {

/// Characters shown in a row of the selection grid.
pub const MAX_COLUMNS: u8 = 4;

/// A position in the selection grid, counted row by row.
#[derive(Clone, Copy, Debug, PartialEq, Eq, Structural)]
pub struct CharacterSquare(pub u8);

/// `square` moved `by` places towards the end, but not past `max`.
pub open spec fn moved_up_to(square: u8, by: u8, max: u8) -> u8 {
    if square + by > max {
        max
    } else {
        (square + by) as u8
    }
}

/// `square` moved `by` places towards the start, but not before the first
/// place, and not left past `max`.
pub open spec fn moved_down_to(square: u8, by: u8, max: u8) -> u8 {
    let target: int = if square >= by {
        square - by
    } else {
        0
    };
    if target > max {
        max
    } else {
        target as u8
    }
}

impl CharacterSquare {
    /// The square at position `value`.
    pub fn new(value: u8) -> (s: Self)
        ensures
            s.0 == value,
    {
        Self(value)
    }

    /// The position of the square.
    pub fn value(&self) -> (v: u8)
        ensures
            v == self.0,
    {
        self.0
    }

    /// One place on, stopping at `max`.
    pub fn next(&mut self, max: u8)
        ensures
            final(self).0 == moved_up_to(old(self).0, 1, max),
    {
        self.down(max, 1);
    }

    /// One place back, stopping at the first place.
    pub fn prev(&mut self, max: u8)
        ensures
            final(self).0 == moved_down_to(old(self).0, 1, max),
    {
        self.up(max, 1);
    }

    /// One row back, stopping at the first place.
    pub fn up(&mut self, max: u8, char_per_row: u8)
        ensures
            final(self).0 == moved_down_to(old(self).0, char_per_row, max),
    {
        let target: u8 = if self.0 >= char_per_row {
            self.0 - char_per_row
        } else {
            0
        };
        self.0 = if target > max {
            max
        } else {
            target
        };
    }

    /// One row on, stopping at `max`.
    pub fn down(&mut self, max: u8, char_per_row: u8)
        ensures
            final(self).0 == moved_up_to(old(self).0, char_per_row, max),
    {
        let target: u16 = self.0 as u16 + char_per_row as u16;
        self.0 = if target > max as u16 {
            max
        } else {
            target as u8
        };
    }
}

} // verus!
