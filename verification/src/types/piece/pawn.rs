//! The pawn.

use super::{
    candidate, insert_candidate, lemma_propose, movement_toward, propose, PawnState, State,
};
use crate::geomath::rotation::Direction;
use crate::geomath::{on_board, Point};
use crate::types::color::Color;
use crate::types::movement::{Movement, SpecialMove};
use crate::types::moves::{move_seq, new_move_set};
use indexmap::IndexSet;
use vstd::prelude::*;

verus! {

/// A pawn. It advances by one cell, or by two if it has never made that move; it
/// captures one cell ahead diagonally, also en passant. Forward is towards
/// increasing ranks for White and towards decreasing ranks for Black.
#[derive(Clone, Copy, Debug, PartialEq, Eq, Structural)]
pub struct Pawn {
    /// The side the piece belongs to.
    pub color: Color,
    /// The cell the piece stands on.
    pub pos: Point,
    /// Whether the pawn may still advance by two cells, and whether it can be
    /// taken en passant.
    pub state: PawnState,
}

impl Pawn {
    /// Constructor of Pawn, which has not moved yet.
    pub fn new(color: Color, pos: Point) -> (piece: Self)
        ensures
            piece == (Pawn { color, pos, state: PawnState::NotYet }),
    {
        Pawn { color, pos, state: PawnState::NotYet }
    }

    /// Color of the piece.
    pub fn color(&self) -> (c: Color)
        ensures
            c == self.color,
    {
        self.color
    }

    /// Position of the piece on the board.
    pub fn pos(&self) -> (p: Point)
        ensures
            p == self.pos,
    {
        self.pos
    }

    /// Moves the piece to `pos`.
    pub fn set_pos(&mut self, pos: Point)
        ensures
            *final(self) == (Pawn { color: old(self).color, pos, state: old(self).state }),
    {
        self.pos = pos;
    }

    /// The material value of the piece.
    pub fn score(&self) -> (s: u8)
        ensures
            s == 1,
    {
        1
    }

    /// Returns `true` if `state` is a pawn's state and the pawn is in it.
    pub fn is_state(&self, state: State) -> (b: bool)
        ensures
            b == (state == State::PawnState(self.state)),
    {
        match state {
            State::PawnState(ps) => ps == self.state,
            State::PieceState(_) => false,
        }
    }

    /// Sets the state of the pawn.
    pub fn set_state(&mut self, state: State)
        requires
            state is PawnState,
        ensures
            *final(self) == (Pawn {
                color: old(self).color,
                pos: old(self).pos,
                state: state->PawnState_0,
            }),
    {
        match state {
            State::PawnState(ps) => {
                self.state = ps;
            },
            State::PieceState(_) => {},
        }
    }

    /// The side from which the offsets of the pawn are read: its own, as a pawn
    /// only moves forward.
    pub fn color_if_has_direction(&self) -> (c: Color)
        ensures
            c == self.color,
    {
        self.color
    }

    /// From an offset, returns the movement of the piece by it, or `None` if it
    /// would leave the board.
    pub fn to_movement(
        &self,
        offset: Point,
        special: Option<SpecialMove>,
        direction: Option<Direction>,
    ) -> (m: Option<Movement>)
        ensures
            m == candidate(self.pos, self.color, offset, special, direction),
    {
        movement_toward(self.pos, self.color_if_has_direction(), offset, special, direction)
    }

    /// The candidates of the pawn in the order of their insertion: one step
    /// ahead, two steps ahead, then the two captures.
    pub open spec fn spec_move_set(&self) -> Seq<Movement> {
        let ahead = propose(
            Seq::empty(),
            self.pos,
            self.color,
            Point { x: 0, y: 1 },
            Some(SpecialMove::CannotEat),
            Some(Direction::Up),
        );
        let double = propose(
            ahead,
            self.pos,
            self.color,
            Point { x: 0, y: 2 },
            Some(SpecialMove::DoublePawn),
            Some(Direction::Up),
        );
        let right = propose(
            double,
            self.pos,
            self.color,
            Point { x: 1, y: 1 },
            Some(SpecialMove::PawnEat),
            Some(Direction::UpRight),
        );
        propose(
            right,
            self.pos,
            self.color,
            Point { x: -1isize, y: 1 },
            Some(SpecialMove::PawnEat),
            Some(Direction::UpLeft),
        )
    }

    /// Whether `m` is one of the pawn's candidates: from its cell to a cell of the
    /// board, one or two cells straight ahead or one cell ahead diagonally, with
    /// the tag and the direction of that step as the pawn sees it.
    pub open spec fn reaches(&self, m: Movement) -> bool {
        let dx = m.to.x - self.pos.x;
        let dy = m.to.y - self.pos.y;
        let ahead = self.color.spec_sign() as int;
        &&& m.from == self.pos
        &&& on_board(m.to)
        &&& {
            ||| dx == 0 && dy == ahead && m.special == Some(SpecialMove::CannotEat) && m.direction
                == Some(Direction::Up)
            ||| dx == 0 && dy == 2 * ahead && m.special == Some(SpecialMove::DoublePawn)
                && m.direction == Some(Direction::Up)
            ||| dx == ahead && dy == ahead && m.special == Some(SpecialMove::PawnEat)
                && m.direction == Some(Direction::UpRight)
            ||| dx == -ahead && dy == ahead && m.special == Some(SpecialMove::PawnEat)
                && m.direction == Some(Direction::UpLeft)
        }
    }

    /// The move set holds each movement that the piece reaches, once, and nothing
    /// else.
    pub proof fn lemma_move_set(&self)
        ensures
            self.spec_move_set().no_duplicates(),
            forall|m: Movement| self.spec_move_set().contains(m) <==> self.reaches(m),
            forall|m: Movement|
                self.spec_move_set().contains(m) ==> m.from == self.pos && on_board(m.to),
    {
        let ahead = propose(
            Seq::empty(),
            self.pos,
            self.color,
            Point { x: 0, y: 1 },
            Some(SpecialMove::CannotEat),
            Some(Direction::Up),
        );
        let double = propose(
            ahead,
            self.pos,
            self.color,
            Point { x: 0, y: 2 },
            Some(SpecialMove::DoublePawn),
            Some(Direction::Up),
        );
        let right = propose(
            double,
            self.pos,
            self.color,
            Point { x: 1, y: 1 },
            Some(SpecialMove::PawnEat),
            Some(Direction::UpRight),
        );
        lemma_propose(
            Seq::empty(),
            self.pos,
            self.color,
            Point { x: 0, y: 1 },
            Some(SpecialMove::CannotEat),
            Some(Direction::Up),
        );
        lemma_propose(
            ahead,
            self.pos,
            self.color,
            Point { x: 0, y: 2 },
            Some(SpecialMove::DoublePawn),
            Some(Direction::Up),
        );
        lemma_propose(
            double,
            self.pos,
            self.color,
            Point { x: 1, y: 1 },
            Some(SpecialMove::PawnEat),
            Some(Direction::UpRight),
        );
        lemma_propose(
            right,
            self.pos,
            self.color,
            Point { x: -1isize, y: 1 },
            Some(SpecialMove::PawnEat),
            Some(Direction::UpLeft),
        );
        assert forall|m: Movement| !Seq::<Movement>::empty().contains(m) by {}
        assert forall|m: Movement| self.spec_move_set().contains(m) implies m.from == self.pos
            && on_board(m.to) by {
            assert(self.reaches(m));
        }
    }

    /// An ordered set of all the movements of the piece that end on the board, not
    /// considering what stands on the other cells.
    pub fn move_set(&self) -> (set: IndexSet<Movement>)
        ensures
            move_seq(set) == self.spec_move_set(),
            move_seq(set).no_duplicates(),
            forall|m: Movement| move_seq(set).contains(m) <==> self.reaches(m),
            forall|m: Movement|
                move_seq(set).contains(m) ==> m.from == self.pos && on_board(m.to),
    {
        let mut set = new_move_set();
        insert_candidate(
            &mut set,
            self.pos,
            self.color,
            Point::new(0, 1),
            Some(SpecialMove::CannotEat),
            Some(Direction::Up),
        );
        insert_candidate(
            &mut set,
            self.pos,
            self.color,
            Point::new(0, 2),
            Some(SpecialMove::DoublePawn),
            Some(Direction::Up),
        );
        insert_candidate(
            &mut set,
            self.pos,
            self.color,
            Point::new(1, 1),
            Some(SpecialMove::PawnEat),
            Some(Direction::UpRight),
        );
        insert_candidate(
            &mut set,
            self.pos,
            self.color,
            Point::new(-1, 1),
            Some(SpecialMove::PawnEat),
            Some(Direction::UpLeft),
        );
        proof {
            self.lemma_move_set();
        }
        set
    }
}

} // verus!
