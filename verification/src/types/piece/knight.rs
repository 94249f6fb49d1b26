//! The knight.

use super::{
    add_candidates, candidate, insert_candidates, lemma_add_candidates, movement_toward, offered,
    State,
};
use crate::geomath::rotation::Direction;
use crate::geomath::{lemma_rotations, magnitude, on_board, Point};
use crate::types::color::Color;
use crate::types::movement::{Movement, SpecialMove};
use crate::types::moves::{move_seq, new_move_set};
use indexmap::IndexSet;
use vstd::prelude::*;

verus! {

/// A knight. It jumps by one cell along one axis and two along the other,
/// whatever stands in between.
#[derive(Clone, Copy, Debug, PartialEq, Eq, Structural)]
pub struct Knight {
    /// The side the piece belongs to.
    pub color: Color,
    /// The cell the piece stands on.
    pub pos: Point,
}

impl Knight {
    /// Constructor of Knight.
    pub fn new(color: Color, pos: Point) -> (piece: Self)
        ensures
            piece == (Knight { color, pos }),
    {
        Knight { color, pos }
    }

    /// Color of the piece.
    pub fn color(&self) -> (c: Color)
        ensures
            c == self.color,
    {
        self.color
    }

    /// Position of the piece on the board.
    pub fn pos(&self) -> (p: Point)
        ensures
            p == self.pos,
    {
        self.pos
    }

    /// Moves the piece to `pos`.
    pub fn set_pos(&mut self, pos: Point)
        ensures
            *final(self) == (Knight { color: old(self).color, pos }),
    {
        self.pos = pos;
    }

    /// The material value of the piece.
    pub fn score(&self) -> (s: u8)
        ensures
            s == 3,
    {
        3
    }

    /// A knight has no state: the answer is `true` for every state.
    pub fn is_state(&self, state: State) -> (b: bool)
        ensures
            b,
    {
        true
    }

    /// A knight has no state: nothing changes.
    pub fn set_state(&mut self, state: State)
        ensures
            *final(self) == *old(self),
    {
    }

    /// The side from which the offsets of the piece are read: always White, as
    /// the piece moves alike in every direction.
    pub fn color_if_has_direction(&self) -> (c: Color)
        ensures
            c == Color::White,
    {
        Color::White
    }

    /// From an offset, returns the movement of the piece by it, or `None` if it
    /// would leave the board.
    pub fn to_movement(
        &self,
        offset: Point,
        special: Option<SpecialMove>,
        direction: Option<Direction>,
    ) -> (m: Option<Movement>)
        ensures
            m == candidate(self.pos, Color::White, offset, special, direction),
    {
        movement_toward(self.pos, self.color_if_has_direction(), offset, special, direction)
    }

    /// The candidates of the knight in the order of their insertion: those of the
    /// rotations of the offset (1, 2).
    pub open spec fn spec_move_set(&self) -> Seq<Movement> {
        add_candidates(Seq::empty(), self.pos, Point { x: 1, y: 2 }.spec_rotations())
    }

    /// Whether `m` is a knight's jump from the knight's cell to a cell of the
    /// board, with no tag and no direction.
    pub open spec fn reaches(&self, m: Movement) -> bool {
        let dx = m.to.x - self.pos.x;
        let dy = m.to.y - self.pos.y;
        &&& m.from == self.pos
        &&& on_board(m.to)
        &&& m.special is None
        &&& m.direction is None
        &&& {
            ||| magnitude(dx) == 1 && magnitude(dy) == 2
            ||| magnitude(dx) == 2 && magnitude(dy) == 1
        }
    }

    /// The move set holds each movement that the piece reaches, once, and nothing
    /// else.
    pub proof fn lemma_move_set(&self)
        ensures
            self.spec_move_set().no_duplicates(),
            forall|m: Movement| self.spec_move_set().contains(m) <==> self.reaches(m),
            forall|m: Movement|
                self.spec_move_set().contains(m) ==> m.from == self.pos && on_board(m.to),
    {
        let jump = Point { x: 1, y: 2 };
        let offsets = jump.spec_rotations();
        lemma_rotations(jump);
        lemma_add_candidates(Seq::empty(), self.pos, offsets);
        assert forall|m: Movement| self.spec_move_set().contains(m) implies self.reaches(m) by {
            assert(!Seq::<Movement>::empty().contains(m));
            let i = choose|i: int| offered(self.pos, offsets, i, m);
            assert(offered(self.pos, offsets, i, m));
            assert(offsets.contains((offsets[i].0, offsets[i].1)));
            assert(jump.is_image(offsets[i].0));
            assert(m.to.x - self.pos.x == offsets[i].0.x);
            assert(m.to.y - self.pos.y == offsets[i].0.y);
        }
        assert forall|m: Movement| self.reaches(m) implies self.spec_move_set().contains(m) by {
            let off = Point {
                x: (m.to.x - self.pos.x) as isize,
                y: (m.to.y - self.pos.y) as isize,
            };
            assert(jump.is_image(off));
            assert(offsets.contains((off, m.direction)));
            let i = choose|i: int| 0 <= i < offsets.len() && offsets[i] == (off, m.direction);
            assert(offered(self.pos, offsets, i, m));
            assert(!Seq::<Movement>::empty().contains(m));
        }
        assert forall|m: Movement| self.spec_move_set().contains(m) implies m.from == self.pos
            && on_board(m.to) by {
            assert(self.reaches(m));
        }
    }

    /// An ordered set of all the movements of the piece that end on the board, not
    /// considering what stands on the other cells.
    pub fn move_set(&self) -> (set: IndexSet<Movement>)
        ensures
            move_seq(set) == self.spec_move_set(),
            move_seq(set).no_duplicates(),
            forall|m: Movement| move_seq(set).contains(m) <==> self.reaches(m),
            forall|m: Movement|
                move_seq(set).contains(m) ==> m.from == self.pos && on_board(m.to),
    {
        let mut set = new_move_set();
        let offsets = Point::new(1, 2).rotations();
        insert_candidates(&mut set, self.pos, &offsets);
        proof {
            self.lemma_move_set();
        }
        set
    }
}

} // verus!
