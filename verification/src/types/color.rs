//! The two sides of a game.

use vstd::prelude::*;
use vstd::std_specs::convert::FromSpecImpl;

verus! {

/// Enum describing the color of a piece.
#[derive(Clone, Copy, Debug, PartialEq, Eq, Structural, Hash)]
pub enum Color {
    Black,
    White,
}

impl Color {
    /// The rank on which the side's officers start.
    pub open spec fn spec_first_row(&self) -> usize {
        match self {
            Color::White => 0,
            Color::Black => 7,
        }
    }

    /// The rank on which the side's pawns start.
    pub open spec fn spec_second_row(&self) -> usize {
        match self {
            Color::White => 1,
            Color::Black => 6,
        }
    }

    /// The other side.
    pub open spec fn spec_opposite(self) -> Color {
        match self {
            Color::White => Color::Black,
            Color::Black => Color::White,
        }
    }

    /// The change of rank of one step forward: 1 for White, -1 for Black.
    pub open spec fn spec_sign(&self) -> isize {
        match self {
            Color::White => 1isize,
            Color::Black => -1isize,
        }
    }

    /// `v` seen from this side: White keeps it, Black turns it around.
    pub open spec fn facing(&self, v: int) -> int {
        match self {
            Color::White => v,
            Color::Black => -v,
        }
    }

    /// Depending on the side, returns the index of the first row from the
    /// player's perspective.
    #[verifier::when_used_as_spec(spec_first_row)]
    pub fn first_row(&self) -> (row: usize)
        ensures
            row == self.spec_first_row(),
    {
        match self {
            Color::White => 0,
            Color::Black => 7,
        }
    }

    /// Returns the index of the row on which the side's pawns start.
    #[verifier::when_used_as_spec(spec_second_row)]
    pub fn second_row(&self) -> (row: usize)
        ensures
            row == self.spec_second_row(),
    {
        match self {
            Color::White => 1,
            Color::Black => 6,
        }
    }

    /// Opposite of the current color.
    #[verifier::when_used_as_spec(spec_opposite)]
    pub fn opposite(self) -> (other: Color)
        ensures
            other == self.spec_opposite(),
    {
        match self {
            Color::White => Color::Black,
            Color::Black => Color::White,
        }
    }

    /// Returns the change of rank of one step forward.
    #[verifier::when_used_as_spec(spec_sign)]
    pub fn sign(&self) -> (s: isize)
        ensures
            s == self.spec_sign(),
    {
        match self {
            Color::White => 1,
            Color::Black => -1,
        }
    }
}

impl Default for Color {
    fn default() -> (c: Color)
        ensures
            c == Color::White,
    {
        Color::White
    }
}

impl From<bool> for Color {
    fn from(value: bool) -> (c: Color) {
        if value {
            Color::White
        } else {
            Color::Black
        }
    }
}

impl FromSpecImpl<bool> for Color {
    open spec fn obeys_from_spec() -> bool {
        true
    }

    open spec fn from_spec(value: bool) -> Color {
        if value {
            Color::White
        } else {
            Color::Black
        }
    }
}

impl From<Color> for bool {
    fn from(value: Color) -> (white: bool) {
        match value {
            Color::White => true,
            Color::Black => false,
        }
    }
}

impl FromSpecImpl<Color> for bool {
    open spec fn obeys_from_spec() -> bool {
        true
    }

    open spec fn from_spec(value: Color) -> bool {
        value == Color::White
    }
}

} // verus!
