//! The rook.

use super::{candidate, insert_rays, lemma_rays, movement_toward, rays, slides, State, PieceState};
use crate::geomath::rotation::Direction;
use crate::geomath::{on_board, Point};
use crate::types::color::Color;
use crate::types::movement::{Movement, SpecialMove};
use crate::types::moves::{move_seq, new_move_set};
use indexmap::IndexSet;
use vstd::prelude::*;

verus! {

/// A rook. It moves and captures along its rank and its file, as far as no piece
/// is in its way.
#[derive(Clone, Copy, Debug, PartialEq, Eq, Structural)]
pub struct Rook {
    /// The side the piece belongs to.
    pub color: Color,
    /// The cell the piece stands on.
    pub pos: Point,
    /// Whether the rook has moved, which decides whether it may castle.
    pub state: PieceState,
}

impl Rook {
    /// Constructor of Rook, which has not moved yet.
    pub fn new(color: Color, pos: Point) -> (piece: Self)
        ensures
            piece == (Rook { color, pos, state: PieceState::NotYet }),
    {
        Rook { color, pos, state: PieceState::NotYet }
    }

    /// Color of the piece.
    pub fn color(&self) -> (c: Color)
        ensures
            c == self.color,
    {
        self.color
    }

    /// Position of the piece on the board.
    pub fn pos(&self) -> (p: Point)
        ensures
            p == self.pos,
    {
        self.pos
    }

    /// Moves the piece to `pos`; from then on it has moved.
    pub fn set_pos(&mut self, pos: Point)
        ensures
            *final(self) == (Rook { color: old(self).color, pos, state: PieceState::Already }),
    {
        self.pos = pos;
        self.state = PieceState::Already;
    }

    /// The material value of the piece.
    pub fn score(&self) -> (s: u8)
        ensures
            s == 5,
    {
        5
    }

    /// Returns `true` if `state` is a state of kings and rooks and the rook is in it.
    pub fn is_state(&self, state: State) -> (b: bool)
        ensures
            b == (state == State::PieceState(self.state)),
    {
        match state {
            State::PieceState(ps) => ps == self.state,
            State::PawnState(_) => false,
        }
    }

    /// Sets the state of the rook.
    pub fn set_state(&mut self, state: State)
        requires
            state is PieceState,
        ensures
            *final(self) == (Rook {
                color: old(self).color,
                pos: old(self).pos,
                state: state->PieceState_0,
            }),
    {
        match state {
            State::PieceState(ps) => {
                self.state = ps;
            },
            State::PawnState(_) => {},
        }
    }

    /// The side from which the offsets of the piece are read: always White, as
    /// the piece moves alike in every direction.
    pub fn color_if_has_direction(&self) -> (c: Color)
        ensures
            c == Color::White,
    {
        Color::White
    }

    /// From an offset, returns the movement of the piece by it, or `None` if it
    /// would leave the board.
    pub fn to_movement(
        &self,
        offset: Point,
        special: Option<SpecialMove>,
        direction: Option<Direction>,
    ) -> (m: Option<Movement>)
        ensures
            m == candidate(self.pos, Color::White, offset, special, direction),
    {
        movement_toward(self.pos, self.color_if_has_direction(), offset, special, direction)
    }

    /// The candidates of the rook in the order of their insertion: for each
    /// distance from 1 to 7, those of the four straight offsets.
    pub open spec fn spec_move_set(&self) -> Seq<Movement> {
        rays(self.pos, false, 7)
    }

    /// Whether `m` takes the rook from its cell along a rank or file to another cell
    /// of the board, at most 7 cells away, with no tag and with the direction of
    /// the displacement.
    pub open spec fn reaches(&self, m: Movement) -> bool {
        slides(self.pos, false, 7, m)
    }

    /// The move set holds each movement that the piece reaches, once, and nothing
    /// else.
    pub proof fn lemma_move_set(&self)
        ensures
            self.spec_move_set().no_duplicates(),
            forall|m: Movement| self.spec_move_set().contains(m) <==> self.reaches(m),
            forall|m: Movement|
                self.spec_move_set().contains(m) ==> m.from == self.pos && on_board(m.to),
    {
        lemma_rays(self.pos, false, 7);
        assert forall|m: Movement| self.spec_move_set().contains(m) implies m.from == self.pos
            && on_board(m.to) by {
            assert(self.reaches(m));
        }
    }

    /// An ordered set of all the movements of the piece that end on the board, not
    /// considering what stands on the other cells.
    pub fn move_set(&self) -> (set: IndexSet<Movement>)
        ensures
            move_seq(set) == self.spec_move_set(),
            move_seq(set).no_duplicates(),
            forall|m: Movement| move_seq(set).contains(m) <==> self.reaches(m),
            forall|m: Movement|
                move_seq(set).contains(m) ==> m.from == self.pos && on_board(m.to),
    {
        let mut set = new_move_set();
        insert_rays(&mut set, self.pos, false);
        proof {
            self.lemma_move_set();
        }
        set
    }
}

} // verus!
