//! The king.

use super::{
    add_candidates, candidate, insert_candidate, insert_candidates, lemma_add_candidates,
    lemma_propose, movement_toward, offered, propose, PieceState, State,
};
use crate::geomath::rotation::{direction_toward, Direction};
use crate::geomath::{chebyshev, lemma_all_around, on_board, Point};
use crate::types::color::Color;
use crate::types::movement::{Movement, SpecialMove};
use crate::types::moves::{move_seq, new_move_set};
use indexmap::IndexSet;
use vstd::prelude::*;

verus! {

/// A king. It moves and captures by one cell in any direction. A king that has
/// never moved may castle with a rook that has never moved: the king goes two
/// cells towards the rook, and the rook comes to stand on the cell the king passed.
#[derive(Clone, Copy, Debug, PartialEq, Eq, Structural)]
pub struct King {
    /// The side the piece belongs to.
    pub color: Color,
    /// The cell the piece stands on.
    pub pos: Point,
    /// Whether the king has moved, which decides whether it may castle.
    pub state: PieceState,
}

impl King {
    /// Constructor of King, which has not moved yet.
    pub fn new(color: Color, pos: Point) -> (piece: Self)
        ensures
            piece == (King { color, pos, state: PieceState::NotYet }),
    {
        King { color, pos, state: PieceState::NotYet }
    }

    /// Color of the piece.
    pub fn color(&self) -> (c: Color)
        ensures
            c == self.color,
    {
        self.color
    }

    /// Position of the piece on the board.
    pub fn pos(&self) -> (p: Point)
        ensures
            p == self.pos,
    {
        self.pos
    }

    /// Moves the piece to `pos`; from then on it has moved.
    pub fn set_pos(&mut self, pos: Point)
        ensures
            *final(self) == (King { color: old(self).color, pos, state: PieceState::Already }),
    {
        self.pos = pos;
        self.state = PieceState::Already;
    }

    /// Returns `true` if `state` is a state of kings and rooks and the king is in it.
    pub fn is_state(&self, state: State) -> (b: bool)
        ensures
            b == (state == State::PieceState(self.state)),
    {
        match state {
            State::PieceState(ps) => ps == self.state,
            State::PawnState(_) => false,
        }
    }

    /// Sets the state of the king.
    pub fn set_state(&mut self, state: State)
        requires
            state is PieceState,
        ensures
            *final(self) == (King {
                color: old(self).color,
                pos: old(self).pos,
                state: state->PieceState_0,
            }),
    {
        match state {
            State::PieceState(ps) => {
                self.state = ps;
            },
            State::PawnState(_) => {},
        }
    }

    /// The side from which the offsets of the piece are read: always White, as
    /// the piece moves alike in every direction.
    pub fn color_if_has_direction(&self) -> (c: Color)
        ensures
            c == Color::White,
    {
        Color::White
    }

    /// From an offset, returns the movement of the piece by it, or `None` if it
    /// would leave the board.
    pub fn to_movement(
        &self,
        offset: Point,
        special: Option<SpecialMove>,
        direction: Option<Direction>,
    ) -> (m: Option<Movement>)
        ensures
            m == candidate(self.pos, Color::White, offset, special, direction),
    {
        movement_toward(self.pos, self.color_if_has_direction(), offset, special, direction)
    }

    /// The candidates of the king in the order of their insertion: the eight
    /// steps, then the long castle and the short castle.
    pub open spec fn spec_move_set(&self) -> Seq<Movement> {
        let steps = add_candidates(Seq::empty(), self.pos, Point::spec_all_around(1));
        let long = propose(
            steps,
            self.pos,
            Color::White,
            Point { x: -2isize, y: 0 },
            Some(SpecialMove::LongCastle),
            Some(Direction::Left),
        );
        propose(
            long,
            self.pos,
            Color::White,
            Point { x: 2, y: 0 },
            Some(SpecialMove::ShortCastle),
            Some(Direction::Right),
        )
    }

    /// Whether `m` takes the king from its cell to a cell of the board by one
    /// step, with no tag and with the direction of the step, or by a castle: two
    /// cells to the left for the long one, two to the right for the short one.
    pub open spec fn reaches(&self, m: Movement) -> bool {
        let dx = m.to.x - self.pos.x;
        let dy = m.to.y - self.pos.y;
        &&& m.from == self.pos
        &&& on_board(m.to)
        &&& {
            ||| m.special is None && chebyshev(dx, dy) == 1 && m.direction == direction_toward(
                dx,
                dy,
            )
            ||| m.special == Some(SpecialMove::LongCastle) && dx == -2 && dy == 0 && m.direction
                == Some(Direction::Left)
            ||| m.special == Some(SpecialMove::ShortCastle) && dx == 2 && dy == 0 && m.direction
                == Some(Direction::Right)
        }
    }

    /// The move set holds each movement that the piece reaches, once, and nothing
    /// else.
    pub proof fn lemma_move_set(&self)
        ensures
            self.spec_move_set().no_duplicates(),
            forall|m: Movement| self.spec_move_set().contains(m) <==> self.reaches(m),
            forall|m: Movement|
                self.spec_move_set().contains(m) ==> m.from == self.pos && on_board(m.to),
    {
        let offsets = Point::spec_all_around(1);
        let steps = add_candidates(Seq::empty(), self.pos, offsets);
        let long = propose(
            steps,
            self.pos,
            Color::White,
            Point { x: -2isize, y: 0 },
            Some(SpecialMove::LongCastle),
            Some(Direction::Left),
        );
        lemma_all_around(1);
        lemma_add_candidates(Seq::empty(), self.pos, offsets);
        lemma_propose(
            steps,
            self.pos,
            Color::White,
            Point { x: -2isize, y: 0 },
            Some(SpecialMove::LongCastle),
            Some(Direction::Left),
        );
        lemma_propose(
            long,
            self.pos,
            Color::White,
            Point { x: 2, y: 0 },
            Some(SpecialMove::ShortCastle),
            Some(Direction::Right),
        );
        assert forall|m: Movement| steps.contains(m) implies self.reaches(m) && m.special
            is None by {
            assert(!Seq::<Movement>::empty().contains(m));
            let i = choose|i: int| offered(self.pos, offsets, i, m);
            assert(offered(self.pos, offsets, i, m));
            assert(offsets.contains((offsets[i].0, offsets[i].1)));
            assert(m.to.x - self.pos.x == offsets[i].0.x);
            assert(m.to.y - self.pos.y == offsets[i].0.y);
        }
        assert forall|m: Movement| self.reaches(m) && m.special is None implies steps.contains(
            m,
        ) by {
            let off = Point {
                x: (m.to.x - self.pos.x) as isize,
                y: (m.to.y - self.pos.y) as isize,
            };
            assert(offsets.contains((off, m.direction)));
            let i = choose|i: int| 0 <= i < offsets.len() && offsets[i] == (off, m.direction);
            assert(offered(self.pos, offsets, i, m));
            assert(!Seq::<Movement>::empty().contains(m));
        }
        assert forall|m: Movement| self.spec_move_set().contains(m) implies m.from == self.pos
            && on_board(m.to) by {
            assert(self.reaches(m));
        }
    }

    /// An ordered set of all the movements of the piece that end on the board, not
    /// considering what stands on the other cells.
    pub fn move_set(&self) -> (set: IndexSet<Movement>)
        ensures
            move_seq(set) == self.spec_move_set(),
            move_seq(set).no_duplicates(),
            forall|m: Movement| move_seq(set).contains(m) <==> self.reaches(m),
            forall|m: Movement|
                move_seq(set).contains(m) ==> m.from == self.pos && on_board(m.to),
    {
        let mut set = new_move_set();
        let offsets = Point::all_around(1);
        insert_candidates(&mut set, self.pos, &offsets);
        insert_candidate(
            &mut set,
            self.pos,
            Color::White,
            Point::new(-2, 0),
            Some(SpecialMove::LongCastle),
            Some(Direction::Left),
        );
        insert_candidate(
            &mut set,
            self.pos,
            Color::White,
            Point::new(2, 0),
            Some(SpecialMove::ShortCastle),
            Some(Direction::Right),
        );
        proof {
            self.lemma_move_set();
        }
        set
    }
}

} // verus!
