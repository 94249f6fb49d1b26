//! One candidate transition of a piece from a cell to another.

use crate::geomath::rotation::Direction;
use crate::geomath::{is_linear, signum, Point};
use vstd::prelude::*;

verus! {

/// Moves that can happen under special circumstances.
#[derive(Clone, Copy, Debug, PartialEq, Eq, Structural, Hash)]
pub enum SpecialMove {
    /// A pawn's step straight ahead, which cannot capture.
    CannotEat,
    /// A pawn's diagonal step, which must capture; en passant is one of these.
    PawnEat,
    /// A pawn's advance by two cells, open to a pawn that has never moved.
    DoublePawn,
    /// The king's castle with the farther rook.
    LongCastle,
    /// The king's castle with the nearer rook.
    ShortCastle,
}

/// A movement of a piece.
#[derive(Clone, Copy, Debug, PartialEq, Eq, Structural, Hash)]
pub struct Movement {
    /// The cell the piece starts from.
    pub from: Point,
    /// The cell the piece arrives at.
    pub to: Point,
    /// The special rule the move falls under, if any.
    pub special: Option<SpecialMove>,
    /// The direction the piece travels in, where the cells in between matter;
    /// `None` for a knight's jump.
    pub direction: Option<Direction>,
}

impl Movement {
    /// Constructor of `Movement`.
    pub fn new(
        from: Point,
        to: Point,
        special: Option<SpecialMove>,
        direction: Option<Direction>,
    ) -> (m: Self)
        ensures
            m == (Movement { from, to, special, direction }),
    {
        Movement { from, to, special, direction }
    }

    /// The unit step of the move, where it runs along a rank, a file or a diagonal.
    pub open spec fn spec_linear(&self) -> Option<Point> {
        let dx = self.to.x - self.from.x;
        let dy = self.to.y - self.from.y;
        if is_linear(dx, dy) {
            Some(Point { x: signum(dx) as isize, y: signum(dy) as isize })
        } else {
            None
        }
    }

    /// Returns the unit step of the move if it runs along a rank, a file or a
    /// diagonal, and `None` if it does not (a knight's jump).
    #[verifier::when_used_as_spec(spec_linear)]
    pub fn linear(&self) -> (step: Option<Point>)
        ensures
            step == self.spec_linear(),
    {
        let dx: i128 = self.to.x as i128 - self.from.x as i128;
        let dy: i128 = self.to.y as i128 - self.from.y as i128;
        let adx: i128 = if dx < 0 { -dx } else { dx };
        let ady: i128 = if dy < 0 { -dy } else { dy };
        if dx == 0 || dy == 0 || adx == ady {
            let x: isize = if dx < 0 { -1 } else if dx == 0 { 0 } else { 1 };
            let y: isize = if dy < 0 { -1 } else if dy == 0 { 0 } else { 1 };
            Some(Point { x, y })
        } else {
            None
        }
    }
}

} // verus!
