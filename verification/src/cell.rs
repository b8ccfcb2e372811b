//! The state of one cell and its numeric code.

use vstd::prelude::*;

verus! {

/// The state of one cell of the grid.
///
/// The two states have the stable codes 0 (`Dead`) and 1 (`Alive`), under
/// which a grid is exchanged as a flat buffer of bytes.
#[derive(Debug, Clone, Copy, PartialEq, Eq, Structural)]
pub enum Cell {
    Dead,
    Alive,
}

impl Cell {
    /// The code of a state: 0 for `Dead`, 1 for `Alive`.
    pub open spec fn spec_code(self) -> u8 {
        match self {
            Cell::Dead => 0u8,
            Cell::Alive => 1u8,
        }
    }

    /// The state that a code stands for, if it stands for one.
    pub open spec fn spec_from_code(code: u8) -> Option<Cell> {
        if code == 0 {
            Some(Cell::Dead)
        } else if code == 1 {
            Some(Cell::Alive)
        } else {
            None
        }
    }

    /// The glyph that a state is drawn with: a solid square for `Alive`,
    /// a hollow one for `Dead`.
    pub open spec fn spec_glyph(self) -> char {
        match self {
            Cell::Dead => '◻',
            Cell::Alive => '◼',
        }
    }

    /// Returns the code of this state.
    pub fn code(self) -> (code: u8)
        ensures
            code == self.spec_code(),
    {
        match self {
            Cell::Dead => 0,
            Cell::Alive => 1,
        }
    }

    /// Decodes a byte, or returns `None` where the byte is no cell code.
    pub fn from_code(code: u8) -> (cell: Option<Cell>)
        ensures
            cell == Cell::spec_from_code(code),
    {
        if code == 0 {
            Some(Cell::Dead)
        } else if code == 1 {
            Some(Cell::Alive)
        } else {
            None
        }
    }

    /// Returns the glyph that this state is drawn with.
    pub fn glyph(self) -> (glyph: char)
        ensures
            glyph == self.spec_glyph(),
    {
        match self {
            Cell::Dead => '◻',
            Cell::Alive => '◼',
        }
    }
}

} // verus!
