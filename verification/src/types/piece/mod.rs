//! The six kinds of piece and what they have in common.

pub mod bishop;
pub mod king;
pub mod knight;
pub mod pawn;
pub mod queen;
pub mod rook;

use super::color::Color;
use super::movement::{Movement, SpecialMove};
use super::moves::{insert_move, move_seq};
use crate::geomath::rotation::{direction_toward, Direction};
use crate::geomath::{chebyshev, lemma_rotations, magnitude, on_board, Point};
use crate::unique::{lemma_push_unique, push_unique};
use bishop::Bishop;
use indexmap::IndexSet;
use king::King;
use knight::Knight;
use pawn::Pawn;
use queen::Queen;
use rook::Rook;
use vstd::prelude::*;
use vstd::std_specs::convert::FromSpecImpl;

verus! {

/// A pawn can be not yet moved, just moved by two cells, or already moved.
#[derive(Clone, Copy, Debug, PartialEq, Eq, Structural)]
pub enum PawnState {
    /// The pawn has not made its double move and may still make it.
    NotYet,
    /// The pawn has just made its double move and can be taken en passant.
    JustDouble,
    /// The pawn has made its double move before: it can neither repeat it nor be
    /// taken en passant.
    Already,
}

/// A king or a rook has either never moved or moved already.
#[derive(Clone, Copy, Debug, PartialEq, Eq, Structural)]
pub enum PieceState {
    /// Not yet moved: the piece can castle.
    NotYet,
    /// Already moved: the piece cannot castle.
    Already,
}

/// Wrapper of all the possible states.
#[derive(Clone, Copy, Debug, PartialEq, Eq, Structural)]
pub enum State {
    PawnState(PawnState),
    PieceState(PieceState),
}

impl Default for PawnState {
    fn default() -> (s: PawnState)
        ensures
            s == PawnState::NotYet,
    {
        PawnState::NotYet
    }
}

impl Default for PieceState {
    fn default() -> (s: PieceState)
        ensures
            s == PieceState::NotYet,
    {
        PieceState::NotYet
    }
}

impl From<PawnState> for State {
    fn from(value: PawnState) -> (s: State) {
        State::PawnState(value)
    }
}

impl FromSpecImpl<PawnState> for State {
    open spec fn obeys_from_spec() -> bool {
        true
    }

    open spec fn from_spec(value: PawnState) -> State {
        State::PawnState(value)
    }
}

impl From<PieceState> for State {
    fn from(value: PieceState) -> (s: State) {
        State::PieceState(value)
    }
}

impl FromSpecImpl<PieceState> for State {
    open spec fn obeys_from_spec() -> bool {
        true
    }

    open spec fn from_spec(value: PieceState) -> State {
        State::PieceState(value)
    }
}

/// The movement that takes a piece at `pos` by `offset`, read from the side
/// `facing`, if it ends on the board.
pub open spec fn candidate(
    pos: Point,
    facing: Color,
    offset: Point,
    special: Option<SpecialMove>,
    direction: Option<Direction>,
) -> Option<Movement> {
    let x = pos.x + facing.facing(offset.x as int);
    let y = pos.y + facing.facing(offset.y as int);
    if 0 <= x < 8 && 0 <= y < 8 {
        Some(Movement { from: pos, to: Point { x: x as isize, y: y as isize }, special, direction })
    } else {
        None
    }
}

/// `acc` with the candidate of `offset` added, if there is one and it is new.
pub open spec fn propose(
    acc: Seq<Movement>,
    pos: Point,
    facing: Color,
    offset: Point,
    special: Option<SpecialMove>,
    direction: Option<Direction>,
) -> Seq<Movement> {
    match candidate(pos, facing, offset, special, direction) {
        Some(m) => push_unique(acc, m),
        None => acc,
    }
}

/// `acc` with the plain candidates of `offsets` added in turn.
pub open spec fn add_candidates(
    acc: Seq<Movement>,
    pos: Point,
    offsets: Seq<(Point, Option<Direction>)>,
) -> Seq<Movement>
    decreases offsets.len(),
{
    if offsets.len() == 0 {
        acc
    } else {
        propose(
            add_candidates(acc, pos, offsets.drop_last()),
            pos,
            Color::White,
            offsets.last().0,
            None,
            offsets.last().1,
        )
    }
}

/// Whether `m` is the plain candidate of the `i`-th of `offsets`.
pub open spec fn offered(
    pos: Point,
    offsets: Seq<(Point, Option<Direction>)>,
    i: int,
    m: Movement,
) -> bool {
    0 <= i < offsets.len() && candidate(pos, Color::White, offsets[i].0, None, offsets[i].1)
        == Some(m)
}

/// The candidates of a piece at `pos` that slides: for each distance from 1 to `n`,
/// those of the four diagonal offsets if `diagonal`, of the four straight ones if not.
pub open spec fn rays(pos: Point, diagonal: bool, n: nat) -> Seq<Movement>
    decreases n,
{
    if n == 0 {
        Seq::empty()
    } else {
        add_candidates(
            rays(pos, diagonal, (n - 1) as nat),
            pos,
            Point { x: if diagonal { n as isize } else { 0 }, y: n as isize }.spec_rotations(),
        )
    }
}

/// `propose` adds its candidate and nothing else, and keeps `acc` free of repetition.
pub proof fn lemma_propose(
    acc: Seq<Movement>,
    pos: Point,
    facing: Color,
    offset: Point,
    special: Option<SpecialMove>,
    direction: Option<Direction>,
)
    ensures
        acc.no_duplicates() ==> propose(
            acc,
            pos,
            facing,
            offset,
            special,
            direction,
        ).no_duplicates(),
        forall|m: Movement|
            propose(acc, pos, facing, offset, special, direction).contains(m) <==> (acc.contains(m)
                || candidate(pos, facing, offset, special, direction) == Some(m)),
{
    match candidate(pos, facing, offset, special, direction) {
        Some(c) => lemma_push_unique(acc, c),
        None => {},
    }
}

/// `add_candidates` adds the candidates of its offsets and nothing else, and keeps
/// `acc` free of repetition.
pub proof fn lemma_add_candidates(
    acc: Seq<Movement>,
    pos: Point,
    offsets: Seq<(Point, Option<Direction>)>,
)
    ensures
        acc.no_duplicates() ==> add_candidates(acc, pos, offsets).no_duplicates(),
        forall|m: Movement|
            add_candidates(acc, pos, offsets).contains(m) <==> (acc.contains(m) || exists|i: int|
                offered(pos, offsets, i, m)),
    decreases offsets.len(),
{
    if offsets.len() > 0 {
        let front = offsets.drop_last();
        let prev = add_candidates(acc, pos, front);
        lemma_add_candidates(acc, pos, front);
        lemma_propose(prev, pos, Color::White, offsets.last().0, None, offsets.last().1);
        assert forall|m: Movement|
            add_candidates(acc, pos, offsets).contains(m) <==> (acc.contains(m) || exists|i: int|
                offered(pos, offsets, i, m)) by {
            if exists|i: int| offered(pos, front, i, m) {
                let i = choose|i: int| offered(pos, front, i, m);
                assert(offered(pos, offsets, i, m));
            }
            if candidate(pos, Color::White, offsets.last().0, None, offsets.last().1) == Some(m) {
                assert(offered(pos, offsets, offsets.len() - 1, m));
            }
            if exists|i: int| offered(pos, offsets, i, m) {
                let i = choose|i: int| offered(pos, offsets, i, m);
                if i < offsets.len() - 1 {
                    assert(offered(pos, front, i, m));
                }
            }
        }
    }
}

/// Whether a piece at `pos` that slides reaches `m` within `n` cells: along a
/// diagonal if `diagonal`, along a rank or a file if not.
pub open spec fn slides(pos: Point, diagonal: bool, n: int, m: Movement) -> bool {
    let dx = m.to.x - pos.x;
    let dy = m.to.y - pos.y;
    &&& m.from == pos
    &&& m.special is None
    &&& on_board(m.to)
    &&& if diagonal {
        magnitude(dx) == magnitude(dy)
    } else {
        dx == 0 || dy == 0
    }
    &&& 1 <= chebyshev(dx, dy) <= n
    &&& m.direction == direction_toward(dx, dy)
}

/// `rays` holds, each once, the movements by which a sliding piece reaches a cell
/// of the board within `n` cells.
pub proof fn lemma_rays(pos: Point, diagonal: bool, n: nat)
    requires
        n <= 7,
    ensures
        rays(pos, diagonal, n).no_duplicates(),
        forall|m: Movement|
            rays(pos, diagonal, n).contains(m) <==> slides(pos, diagonal, n as int, m),
    decreases n,
{
    if n > 0 {
        let prev = rays(pos, diagonal, (n - 1) as nat);
        let corner = Point { x: if diagonal { n as isize } else { 0 }, y: n as isize };
        let offsets = corner.spec_rotations();
        lemma_rays(pos, diagonal, (n - 1) as nat);
        lemma_rotations(corner);
        lemma_add_candidates(prev, pos, offsets);
        assert forall|m: Movement| rays(pos, diagonal, n).contains(m) implies slides(
            pos,
            diagonal,
            n as int,
            m,
        ) by {
            if prev.contains(m) {
                assert(slides(pos, diagonal, n - 1, m));
            } else {
                let i = choose|i: int| offered(pos, offsets, i, m);
                assert(offered(pos, offsets, i, m));
                assert(offsets.contains(offsets[i]));
                assert(offsets.contains((offsets[i].0, offsets[i].1)));
                assert(corner.is_image(offsets[i].0));
                assert(m.to.x - pos.x == offsets[i].0.x);
                assert(m.to.y - pos.y == offsets[i].0.y);
            }
        }
        assert forall|m: Movement| slides(pos, diagonal, n as int, m) implies rays(
            pos,
            diagonal,
            n,
        ).contains(m) by {
            if slides(pos, diagonal, n - 1, m) {
                assert(prev.contains(m));
            } else {
                let off = Point { x: (m.to.x - pos.x) as isize, y: (m.to.y - pos.y) as isize };
                assert(corner.is_image(off));
                assert(offsets.contains((off, m.direction)));
                let i = choose|i: int| 0 <= i < offsets.len() && offsets[i] == (off, m.direction);
                assert(offered(pos, offsets, i, m));
            }
        }
    }
}

/// Returns the movement that takes a piece at `pos` by `offset`, read from the
/// side `facing`, if it ends on the board.
pub(crate) fn movement_toward(
    pos: Point,
    facing: Color,
    offset: Point,
    special: Option<SpecialMove>,
    direction: Option<Direction>,
) -> (m: Option<Movement>)
    ensures
        m == candidate(pos, facing, offset, special, direction),
{
    let (x, y): (i128, i128) = match facing {
        Color::White => (pos.x as i128 + offset.x as i128, pos.y as i128 + offset.y as i128),
        Color::Black => (pos.x as i128 - offset.x as i128, pos.y as i128 - offset.y as i128),
    };
    if 0 <= x && x < 8 && 0 <= y && y < 8 {
        Some(Movement { from: pos, to: Point { x: x as isize, y: y as isize }, special, direction })
    } else {
        None
    }
}

/// Inserts into `set` the candidate of `offset`, if there is one.
pub(crate) fn insert_candidate(
    set: &mut IndexSet<Movement>,
    pos: Point,
    facing: Color,
    offset: Point,
    special: Option<SpecialMove>,
    direction: Option<Direction>,
)
    ensures
        move_seq(*final(set)) == propose(
            move_seq(*old(set)),
            pos,
            facing,
            offset,
            special,
            direction,
        ),
{
    match movement_toward(pos, facing, offset, special, direction) {
        Some(m) => {
            insert_move(set, m);
        },
        None => {},
    }
}

/// Inserts into `set` the plain candidates of `offsets`, in their order.
pub(crate) fn insert_candidates(
    set: &mut IndexSet<Movement>,
    pos: Point,
    offsets: &Vec<(Point, Option<Direction>)>,
)
    ensures
        move_seq(*final(set)) == add_candidates(move_seq(*old(set)), pos, offsets@),
{
    let mut i: usize = 0;
    while i < offsets.len()
        invariant
            i <= offsets.len(),
            move_seq(*set) == add_candidates(move_seq(*old(set)), pos, offsets@.take(i as int)),
        decreases offsets.len() - i,
    {
        let (offset, direction) = offsets[i];
        proof {
            assert(offsets@.take(i as int + 1).drop_last() =~= offsets@.take(i as int));
            assert(offsets@.take(i as int + 1).last() == (offset, direction));
        }
        insert_candidate(set, pos, Color::White, offset, None, direction);
        i += 1;
    }
    proof {
        assert(offsets@.take(offsets.len() as int) =~= offsets@);
    }
}

/// Inserts into `set`, which holds nothing yet, the candidates of a sliding piece.
pub(crate) fn insert_rays(set: &mut IndexSet<Movement>, pos: Point, diagonal: bool)
    requires
        move_seq(*old(set)) == Seq::<Movement>::empty(),
    ensures
        move_seq(*final(set)) == rays(pos, diagonal, 7),
{
    let mut n: isize = 1;
    while n < 8
        invariant
            1 <= n <= 8,
            move_seq(*set) == rays(pos, diagonal, (n - 1) as nat),
        decreases 8 - n,
    {
        let corner = Point::new(if diagonal { n } else { 0 }, n);
        let offsets = corner.rotations();
        insert_candidates(set, pos, &offsets);
        n += 1;
    }
}

/// A chess piece: one of the six kinds.
#[derive(Clone, Copy, Debug, PartialEq, Eq, Structural)]
pub enum Piece {
    Pawn(Pawn),
    Knight(Knight),
    Bishop(Bishop),
    Rook(Rook),
    Queen(Queen),
    King(King),
}

impl Piece {
    /// The side the piece belongs to.
    pub open spec fn spec_color(&self) -> Color {
        match self {
            Piece::Pawn(p) => p.color,
            Piece::Knight(p) => p.color,
            Piece::Bishop(p) => p.color,
            Piece::Rook(p) => p.color,
            Piece::Queen(p) => p.color,
            Piece::King(p) => p.color,
        }
    }

    /// The cell the piece stands on.
    pub open spec fn spec_pos(&self) -> Point {
        match self {
            Piece::Pawn(p) => p.pos,
            Piece::Knight(p) => p.pos,
            Piece::Bishop(p) => p.pos,
            Piece::Rook(p) => p.pos,
            Piece::Queen(p) => p.pos,
            Piece::King(p) => p.pos,
        }
    }

    /// The piece on the cell `pos`, otherwise unchanged.
    pub open spec fn spec_placed_at(&self, pos: Point) -> Piece {
        match self {
            Piece::Pawn(p) => Piece::Pawn(Pawn { color: p.color, pos, state: p.state }),
            Piece::Knight(p) => Piece::Knight(Knight { color: p.color, pos }),
            Piece::Bishop(p) => Piece::Bishop(Bishop { color: p.color, pos }),
            Piece::Rook(p) => Piece::Rook(Rook { color: p.color, pos, state: p.state }),
            Piece::Queen(p) => Piece::Queen(Queen { color: p.color, pos }),
            Piece::King(p) => Piece::King(King { color: p.color, pos, state: p.state }),
        }
    }

    /// The piece after a move to `pos`: it stands there, and a king or a rook has
    /// moved from then on.
    pub open spec fn spec_moved_to(&self, pos: Point) -> Piece {
        match self {
            Piece::Rook(p) => Piece::Rook(Rook { color: p.color, pos, state: PieceState::Already }),
            Piece::King(p) => Piece::King(King { color: p.color, pos, state: PieceState::Already }),
            _ => self.spec_placed_at(pos),
        }
    }

    /// The material value of the piece. A king has none: it is never captured,
    /// and 0 stands here only to make the function total.
    pub open spec fn spec_score(&self) -> u8 {
        match self {
            Piece::Pawn(_) => 1,
            Piece::Knight(_) => 3,
            Piece::Bishop(_) => 3,
            Piece::Rook(_) => 5,
            Piece::Queen(_) => 9,
            Piece::King(_) => 0,
        }
    }

    /// Whether the piece has the given state. A piece that has no state at all
    /// has every state.
    pub open spec fn spec_is_state(&self, state: State) -> bool {
        match self {
            Piece::Pawn(p) => state == State::PawnState(p.state),
            Piece::Rook(p) => state == State::PieceState(p.state),
            Piece::King(p) => state == State::PieceState(p.state),
            _ => true,
        }
    }

    /// Whether the piece can take the given state: a pawn a pawn's, a king or a
    /// rook one of theirs, any other piece either.
    pub open spec fn accepts(&self, state: State) -> bool {
        match self {
            Piece::Pawn(_) => state is PawnState,
            Piece::Rook(_) => state is PieceState,
            Piece::King(_) => state is PieceState,
            _ => true,
        }
    }

    /// The piece in the given state, if it has one of that kind.
    pub open spec fn spec_with_state(&self, state: State) -> Piece {
        match (self, state) {
            (Piece::Pawn(p), State::PawnState(s)) => Piece::Pawn(
                Pawn { color: p.color, pos: p.pos, state: s },
            ),
            (Piece::Rook(p), State::PieceState(s)) => Piece::Rook(
                Rook { color: p.color, pos: p.pos, state: s },
            ),
            (Piece::King(p), State::PieceState(s)) => Piece::King(
                King { color: p.color, pos: p.pos, state: s },
            ),
            _ => *self,
        }
    }

    /// The side from which the offsets of the piece are read: its own for a
    /// pawn, White for every other piece.
    pub open spec fn spec_facing(&self) -> Color {
        match self {
            Piece::Pawn(p) => p.color,
            _ => Color::White,
        }
    }

    /// The candidates of the piece, in the order of their insertion.
    pub open spec fn spec_move_set(&self) -> Seq<Movement> {
        match self {
            Piece::Pawn(p) => p.spec_move_set(),
            Piece::Knight(p) => p.spec_move_set(),
            Piece::Bishop(p) => p.spec_move_set(),
            Piece::Rook(p) => p.spec_move_set(),
            Piece::Queen(p) => p.spec_move_set(),
            Piece::King(p) => p.spec_move_set(),
        }
    }

    /// Whether `m` is one of the candidates of the piece: a movement from its
    /// cell to a cell of the board that its kind allows, whatever stands there or
    /// in between.
    pub open spec fn reaches(&self, m: Movement) -> bool {
        match self {
            Piece::Pawn(p) => p.reaches(m),
            Piece::Knight(p) => p.reaches(m),
            Piece::Bishop(p) => p.reaches(m),
            Piece::Rook(p) => p.reaches(m),
            Piece::Queen(p) => p.reaches(m),
            Piece::King(p) => p.reaches(m),
        }
    }

    /// The move set holds each movement that the piece reaches, once, and nothing
    /// else; each starts from the piece's cell and ends on the board.
    pub proof fn lemma_move_set(&self)
        ensures
            self.spec_move_set().no_duplicates(),
            forall|m: Movement| self.spec_move_set().contains(m) <==> self.reaches(m),
            forall|m: Movement|
                self.spec_move_set().contains(m) ==> m.from == self.spec_pos() && on_board(m.to),
    {
        match self {
            Piece::Pawn(p) => p.lemma_move_set(),
            Piece::Knight(p) => p.lemma_move_set(),
            Piece::Bishop(p) => p.lemma_move_set(),
            Piece::Rook(p) => p.lemma_move_set(),
            Piece::Queen(p) => p.lemma_move_set(),
            Piece::King(p) => p.lemma_move_set(),
        }
    }

    /// Color of the piece.
    pub fn color(&self) -> (c: Color)
        ensures
            c == self.spec_color(),
    {
        match self {
            Piece::Pawn(p) => p.color(),
            Piece::Knight(p) => p.color(),
            Piece::Bishop(p) => p.color(),
            Piece::Rook(p) => p.color(),
            Piece::Queen(p) => p.color(),
            Piece::King(p) => p.color(),
        }
    }

    /// Position of the piece on the board.
    pub fn pos(&self) -> (p: Point)
        ensures
            p == self.spec_pos(),
    {
        match self {
            Piece::Pawn(p) => p.pos(),
            Piece::Knight(p) => p.pos(),
            Piece::Bishop(p) => p.pos(),
            Piece::Rook(p) => p.pos(),
            Piece::Queen(p) => p.pos(),
            Piece::King(p) => p.pos(),
        }
    }

    /// Moves the piece to `pos`; a king or a rook has moved from then on.
    pub fn set_pos(&mut self, pos: Point)
        ensures
            *final(self) == old(self).spec_moved_to(pos),
    {
        match self {
            Piece::Pawn(p) => p.set_pos(pos),
            Piece::Knight(p) => p.set_pos(pos),
            Piece::Bishop(p) => p.set_pos(pos),
            Piece::Rook(p) => p.set_pos(pos),
            Piece::Queen(p) => p.set_pos(pos),
            Piece::King(p) => p.set_pos(pos),
        }
    }

    /// Returns the piece on the cell `pos`, otherwise unchanged.
    pub fn placed_at(&self, pos: Point) -> (piece: Piece)
        ensures
            piece == self.spec_placed_at(pos),
    {
        match self {
            Piece::Pawn(p) => Piece::Pawn(Pawn { color: p.color, pos, state: p.state }),
            Piece::Knight(p) => Piece::Knight(Knight { color: p.color, pos }),
            Piece::Bishop(p) => Piece::Bishop(Bishop { color: p.color, pos }),
            Piece::Rook(p) => Piece::Rook(Rook { color: p.color, pos, state: p.state }),
            Piece::Queen(p) => Piece::Queen(Queen { color: p.color, pos }),
            Piece::King(p) => Piece::King(King { color: p.color, pos, state: p.state }),
        }
    }

    /// Returns whether the piece is a pawn.
    pub fn is_pawn(&self) -> (b: bool)
        ensures
            b == (self is Pawn),
    {
        match self {
            Piece::Pawn(_) => true,
            _ => false,
        }
    }

    /// Returns whether the piece is a king.
    pub fn is_king(&self) -> (b: bool)
        ensures
            b == (self is King),
    {
        match self {
            Piece::King(_) => true,
            _ => false,
        }
    }

    /// In chess, each piece but the king has a value. This method returns it.
    pub fn score(&self) -> (s: u8)
        requires
            !(self is King),
        ensures
            s == self.spec_score(),
    {
        match self {
            Piece::Pawn(p) => p.score(),
            Piece::Knight(p) => p.score(),
            Piece::Bishop(p) => p.score(),
            Piece::Rook(p) => p.score(),
            Piece::Queen(p) => p.score(),
            Piece::King(_) => 0,
        }
    }

    /// Returns `true` if the piece has the given state or `false` otherwise.
    /// If the piece has no state at all, `true` is returned.
    pub fn is_state(&self, state: State) -> (b: bool)
        ensures
            b == self.spec_is_state(state),
    {
        match self {
            Piece::Pawn(p) => p.is_state(state),
            Piece::Knight(p) => p.is_state(state),
            Piece::Bishop(p) => p.is_state(state),
            Piece::Rook(p) => p.is_state(state),
            Piece::Queen(p) => p.is_state(state),
            Piece::King(p) => p.is_state(state),
        }
    }

    /// Sets the state of the piece to something else, if it has one.
    pub fn set_state(&mut self, state: State)
        requires
            old(self).accepts(state),
        ensures
            *final(self) == old(self).spec_with_state(state),
    {
        match self {
            Piece::Pawn(p) => p.set_state(state),
            Piece::Knight(p) => p.set_state(state),
            Piece::Bishop(p) => p.set_state(state),
            Piece::Rook(p) => p.set_state(state),
            Piece::Queen(p) => p.set_state(state),
            Piece::King(p) => p.set_state(state),
        }
    }

    /// Returns the actual color if the direction is important for the piece,
    /// or White if it is not.
    pub fn color_if_has_direction(&self) -> (c: Color)
        ensures
            c == self.spec_facing(),
    {
        match self {
            Piece::Pawn(p) => p.color_if_has_direction(),
            Piece::Knight(p) => p.color_if_has_direction(),
            Piece::Bishop(p) => p.color_if_has_direction(),
            Piece::Rook(p) => p.color_if_has_direction(),
            Piece::Queen(p) => p.color_if_has_direction(),
            Piece::King(p) => p.color_if_has_direction(),
        }
    }

    /// From an offset, returns the movement of the piece by it, or `None` if it
    /// would leave the board.
    pub fn to_movement(
        &self,
        offset: Point,
        special: Option<SpecialMove>,
        direction: Option<Direction>,
    ) -> (m: Option<Movement>)
        ensures
            m == candidate(self.spec_pos(), self.spec_facing(), offset, special, direction),
    {
        movement_toward(self.pos(), self.color_if_has_direction(), offset, special, direction)
    }

    /// An ordered set of all the movements of the piece that end on the board, not
    /// considering what stands on the other cells.
    pub fn move_set(&self) -> (set: IndexSet<Movement>)
        ensures
            move_seq(set) == self.spec_move_set(),
            move_seq(set).no_duplicates(),
            forall|m: Movement| move_seq(set).contains(m) <==> self.reaches(m),
            forall|m: Movement|
                move_seq(set).contains(m) ==> m.from == self.spec_pos() && on_board(m.to),
    {
        match self {
            Piece::Pawn(p) => p.move_set(),
            Piece::Knight(p) => p.move_set(),
            Piece::Bishop(p) => p.move_set(),
            Piece::Rook(p) => p.move_set(),
            Piece::Queen(p) => p.move_set(),
            Piece::King(p) => p.move_set(),
        }
    }
}

/// The piece that starts on file `x` of the first rank of `color`.
pub open spec fn spec_placement(x: isize, color: Color) -> Option<Piece> {
    let pos = Point { x, y: color.spec_first_row() as isize };
    if x == 0 || x == 7 {
        Some(Piece::Rook(Rook { color, pos, state: PieceState::NotYet }))
    } else if x == 1 || x == 6 {
        Some(Piece::Knight(Knight { color, pos }))
    } else if x == 2 || x == 5 {
        Some(Piece::Bishop(Bishop { color, pos }))
    } else if x == 3 {
        Some(Piece::Queen(Queen { color, pos }))
    } else if x == 4 {
        Some(Piece::King(King { color, pos, state: PieceState::NotYet }))
    } else {
        None
    }
}

/// The piece that the letter `c` names among those a pawn promotes to: `B`, `N`,
/// `R` or `Q`, in either case.
pub open spec fn spec_piece_from_char(c: char, color: Color, pos: Point) -> Option<Piece> {
    if c == 'B' || c == 'b' {
        Some(Piece::Bishop(Bishop { color, pos }))
    } else if c == 'N' || c == 'n' {
        Some(Piece::Knight(Knight { color, pos }))
    } else if c == 'R' || c == 'r' {
        Some(Piece::Rook(Rook { color, pos, state: PieceState::NotYet }))
    } else if c == 'Q' || c == 'q' {
        Some(Piece::Queen(Queen { color, pos }))
    } else {
        None
    }
}

/// Given a file of the board, returns the piece that starts there on the first
/// rank of `color`, and `None` for any other number.
pub fn placement(x: isize, color: Color) -> (piece: Option<Piece>)
    ensures
        piece == spec_placement(x, color),
{
    let pos = Point::new(x, color.first_row() as isize);
    if x == 0 || x == 7 {
        Some(Piece::Rook(Rook::new(color, pos)))
    } else if x == 1 || x == 6 {
        Some(Piece::Knight(Knight::new(color, pos)))
    } else if x == 2 || x == 5 {
        Some(Piece::Bishop(Bishop::new(color, pos)))
    } else if x == 3 {
        Some(Piece::Queen(Queen::new(color, pos)))
    } else if x == 4 {
        Some(Piece::King(King::new(color, pos)))
    } else {
        None
    }
}

/// Returns a piece from its letter. Only a bishop, a knight, a rook and a queen
/// have one here: they are the pieces that a pawn can promote to.
pub fn piece_from_char(c: char, color: Color, pos: Point) -> (piece: Option<Piece>)
    ensures
        piece == spec_piece_from_char(c, color, pos),
{
    if c == 'B' || c == 'b' {
        Some(Piece::Bishop(Bishop::new(color, pos)))
    } else if c == 'N' || c == 'n' {
        Some(Piece::Knight(Knight::new(color, pos)))
    } else if c == 'R' || c == 'r' {
        Some(Piece::Rook(Rook::new(color, pos)))
    } else if c == 'Q' || c == 'q' {
        Some(Piece::Queen(Queen::new(color, pos)))
    } else {
        None
    }
}

} // verus!
