//! The queen.

use super::bishop::Bishop;
use super::rook::Rook;
use super::{candidate, lemma_rays, movement_toward, rays, slides, State};
use crate::geomath::rotation::Direction;
use crate::geomath::{on_board, Point};
use crate::types::color::Color;
use crate::types::movement::{Movement, SpecialMove};
use crate::types::moves::{insert_move, listed_moves, move_seq};
use crate::unique::{extend_unique, lemma_extend_unique};
use indexmap::IndexSet;
use vstd::prelude::*;

verus! {

/// A queen. It moves and captures like a rook and a bishop combined.
#[derive(Clone, Copy, Debug, PartialEq, Eq, Structural)]
pub struct Queen {
    /// The side the piece belongs to.
    pub color: Color,
    /// The cell the piece stands on.
    pub pos: Point,
}

impl Queen {
    /// Constructor of Queen.
    pub fn new(color: Color, pos: Point) -> (piece: Self)
        ensures
            piece == (Queen { color, pos }),
    {
        Queen { color, pos }
    }

    /// Color of the piece.
    pub fn color(&self) -> (c: Color)
        ensures
            c == self.color,
    {
        self.color
    }

    /// Position of the piece on the board.
    pub fn pos(&self) -> (p: Point)
        ensures
            p == self.pos,
    {
        self.pos
    }

    /// Moves the piece to `pos`.
    pub fn set_pos(&mut self, pos: Point)
        ensures
            *final(self) == (Queen { color: old(self).color, pos }),
    {
        self.pos = pos;
    }

    /// The material value of the piece.
    pub fn score(&self) -> (s: u8)
        ensures
            s == 9,
    {
        9
    }

    /// A queen has no state: the answer is `true` for every state.
    pub fn is_state(&self, state: State) -> (b: bool)
        ensures
            b,
    {
        true
    }

    /// A queen has no state: nothing changes.
    pub fn set_state(&mut self, state: State)
        ensures
            *final(self) == *old(self),
    {
    }

    /// The side from which the offsets of the piece are read: always White, as
    /// the piece moves alike in every direction.
    pub fn color_if_has_direction(&self) -> (c: Color)
        ensures
            c == Color::White,
    {
        Color::White
    }

    /// From an offset, returns the movement of the piece by it, or `None` if it
    /// would leave the board.
    pub fn to_movement(
        &self,
        offset: Point,
        special: Option<SpecialMove>,
        direction: Option<Direction>,
    ) -> (m: Option<Movement>)
        ensures
            m == candidate(self.pos, Color::White, offset, special, direction),
    {
        movement_toward(self.pos, self.color_if_has_direction(), offset, special, direction)
    }

    /// The candidates of the queen in the order of their insertion: those of a
    /// rook on its cell, then those of a bishop.
    pub open spec fn spec_move_set(&self) -> Seq<Movement> {
        extend_unique(rays(self.pos, false, 7), rays(self.pos, true, 7))
    }

    /// Whether `m` takes the queen from its cell along a rank, a file or a
    /// diagonal to another cell of the board, with no tag and with the
    /// direction of the displacement.
    pub open spec fn reaches(&self, m: Movement) -> bool {
        slides(self.pos, false, 7, m) || slides(self.pos, true, 7, m)
    }

    /// The move set holds each movement that the piece reaches, once, and nothing
    /// else.
    pub proof fn lemma_move_set(&self)
        ensures
            self.spec_move_set().no_duplicates(),
            forall|m: Movement| self.spec_move_set().contains(m) <==> self.reaches(m),
            forall|m: Movement|
                self.spec_move_set().contains(m) ==> m.from == self.pos && on_board(m.to),
    {
        lemma_rays(self.pos, false, 7);
        lemma_rays(self.pos, true, 7);
        lemma_extend_unique(rays(self.pos, false, 7), rays(self.pos, true, 7));
        assert forall|m: Movement| self.spec_move_set().contains(m) implies m.from == self.pos
            && on_board(m.to) by {
            assert(self.reaches(m));
        }
    }

    /// An ordered set of all the movements of the piece that end on the board, not
    /// considering what stands on the other cells.
    pub fn move_set(&self) -> (set: IndexSet<Movement>)
        ensures
            move_seq(set) == self.spec_move_set(),
            move_seq(set).no_duplicates(),
            forall|m: Movement| move_seq(set).contains(m) <==> self.reaches(m),
            forall|m: Movement|
                move_seq(set).contains(m) ==> m.from == self.pos && on_board(m.to),
    {
        let mut set = Rook::new(self.color, self.pos).move_set();
        let diagonal = listed_moves(&Bishop::new(self.color, self.pos).move_set());
        let ghost straight = move_seq(set);
        let mut i: usize = 0;
        while i < diagonal.len()
            invariant
                i <= diagonal.len(),
                move_seq(set) == extend_unique(straight, diagonal@.take(i as int)),
            decreases diagonal.len() - i,
        {
            proof {
                assert(diagonal@.take(i as int + 1).drop_last() =~= diagonal@.take(i as int));
            }
            insert_move(&mut set, diagonal[i]);
            i += 1;
        }
        proof {
            assert(diagonal@.take(diagonal.len() as int) =~= diagonal@);
            self.lemma_move_set();
        }
        set
    }
}

} // verus!
