//! The mutator: what a move does to the board.

use super::rules::{holds, is_legal_move, occupant, shifted, well_placed};
use super::Board;
use crate::geomath::{on_board, Point};
use crate::types::color::Color;
use crate::types::movement::{Movement, SpecialMove};
use crate::types::piece::pawn::Pawn;
use crate::types::piece::{PawnState, Piece, State};
use crate::unique::lemma_push_holds;
use vstd::prelude::*;

verus! {

/// The board once the window for taking the pawns of `color` en passant has
/// closed: each of them that had just advanced by two cells has now done so
/// already.
pub open spec fn expired(g: Map<Point, Piece>, color: Color) -> Map<Point, Piece> {
    Map::new(
        |p: Point| g.contains_key(p),
        |p: Point|
            match g[p] {
                Piece::Pawn(pawn) => if pawn.color == color && pawn.state == PawnState::JustDouble {
                    Piece::Pawn(
                        Pawn { color: pawn.color, pos: pawn.pos, state: PawnState::Already },
                    )
                } else {
                    g[p]
                },
                _ => g[p],
            },
    )
}

/// The board with the piece on the first cell of `m` marked as having just
/// advanced by two cells, if that is what `m` does.
pub open spec fn marked(g: Map<Point, Piece>, m: Movement) -> Map<Point, Piece> {
    if m.special == Some(SpecialMove::DoublePawn) {
        g.insert(m.from, g[m.from].spec_with_state(State::PawnState(PawnState::JustDouble)))
    } else {
        g
    }
}

/// The cell right behind the cell that `m` goes to, seen from the side `color`.
pub open spec fn cell_behind(m: Movement, color: Color) -> Point {
    shifted(m.to, 0, -(color.spec_sign() as int))
}

/// The cell the rook leaves in a castle `m`.
pub open spec fn rook_origin(m: Movement) -> Point {
    if m.special == Some(SpecialMove::ShortCastle) {
        shifted(m.from, 3, 0)
    } else {
        shifted(m.from, -4, 0)
    }
}

/// The cell the rook comes to in a castle `m`: next to the king's new cell, on
/// the side the king came from.
pub open spec fn rook_target(m: Movement) -> Point {
    if m.special == Some(SpecialMove::ShortCastle) {
        shifted(m.to, -1, 0)
    } else {
        shifted(m.to, 1, 0)
    }
}

/// Whether `m` takes a pawn en passant: a pawn's capture towards an empty cell.
pub open spec fn takes_en_passant(g: Map<Point, Piece>, m: Movement) -> bool {
    m.special == Some(SpecialMove::PawnEat) && !g.contains_key(m.to)
}

/// The board after what a special move does besides moving its piece: a castle
/// brings the rook next to the king, a capture en passant removes the pawn
/// behind the cell the capturing pawn goes to.
pub open spec fn side_effect(g: Map<Point, Piece>, m: Movement) -> Map<Point, Piece> {
    if m.special == Some(SpecialMove::ShortCastle) || m.special == Some(SpecialMove::LongCastle) {
        g.remove(rook_origin(m)).insert(
            rook_target(m),
            g[rook_origin(m)].spec_moved_to(rook_target(m)),
        )
    } else if takes_en_passant(g, m) {
        g.remove(cell_behind(m, g[m.from].spec_color()))
    } else {
        g
    }
}

/// The board after the piece on the first cell of `m` has gone to the second,
/// where `promoted`, if given, stands in its place.
pub open spec fn relocated(g: Map<Point, Piece>, m: Movement, promoted: Option<Piece>) -> Map<
    Point,
    Piece,
> {
    let piece = match promoted {
        Some(piece) => piece,
        None => g[m.from],
    };
    g.remove(m.from).insert(m.to, piece.spec_moved_to(m.to))
}

/// The board after the move `m`: the window for taking the mover's pawns en
/// passant closes, the special move has its side effect, and the piece goes to
/// its new cell, replaced by `promoted` if given.
pub open spec fn after_move(g: Map<Point, Piece>, m: Movement, promoted: Option<Piece>) -> Map<
    Point,
    Piece,
> {
    relocated(side_effect(marked(expired(g, g[m.from].spec_color()), m), m), m, promoted)
}

/// The piece that `m` captures: the one on the cell it goes to or, for a capture
/// en passant, the one behind that cell.
pub open spec fn captured(g: Map<Point, Piece>, m: Movement) -> Option<Piece> {
    if g.contains_key(m.to) {
        Some(g[m.to])
    } else if m.special == Some(SpecialMove::PawnEat) {
        occupant(g, cell_behind(m, g[m.from].spec_color()))
    } else {
        None
    }
}

/// Whether the board can carry out `m`: a piece stands on its first cell, both
/// cells are on the board, and what its special move touches is there.
pub open spec fn playable(g: Map<Point, Piece>, m: Movement) -> bool {
    &&& on_board(m.from)
    &&& on_board(m.to)
    &&& g.contains_key(m.from)
    &&& m.special == Some(SpecialMove::DoublePawn) ==> g[m.from].accepts(
        State::PawnState(PawnState::JustDouble),
    )
    &&& (m.special == Some(SpecialMove::ShortCastle) || m.special == Some(SpecialMove::LongCastle))
        ==> on_board(rook_origin(m)) && on_board(rook_target(m)) && g.contains_key(rook_origin(m))
    &&& takes_en_passant(g, m) ==> on_board(cell_behind(m, g[m.from].spec_color())) && cell_behind(
        m,
        g[m.from].spec_color(),
    ) != m.from
}

/// Whether `m` is a promotion: a pawn's move to the first rank of the other side.
pub open spec fn promotes(g: Map<Point, Piece>, m: Movement) -> bool {
    &&& on_board(m.from)
    &&& g.contains_key(m.from)
    &&& g[m.from] matches Piece::Pawn(pawn)
    &&& m.to.y == pawn.color.spec_opposite().spec_first_row()
}

/// The board can carry out each of its legal moves.
pub proof fn lemma_legal_is_playable(g: Map<Point, Piece>, m: Movement)
    requires
        well_placed(g),
        is_legal_move(g, m),
    ensures
        playable(g, m),
{
}

/// Closing the window, marking and the side effects of a move keep each piece on
/// the cell it knows.
pub proof fn lemma_after_move_well_placed(
    g: Map<Point, Piece>,
    m: Movement,
    promoted: Option<Piece>,
)
    requires
        well_placed(g),
        playable(g, m),
    ensures
        well_placed(after_move(g, m, promoted)),
{
    let color = g[m.from].spec_color();
    let a = expired(g, color);
    assert(well_placed(a));
    let b = marked(a, m);
    assert(well_placed(b));
    let c = side_effect(b, m);
    assert(well_placed(c));
}

impl Board {
    /// Returns whether `mov` takes a pawn to the first rank of the other side,
    /// where it is to be replaced by another piece.
    pub fn is_promoting(&self, mov: &Movement) -> (promoting: bool)
        ensures
            promoting == promotes(self@, *mov),
    {
        match self.piece_at(mov.from) {
            Some(Piece::Pawn(pawn)) => pawn.color.opposite().first_row() as isize == mov.to.y,
            _ => false,
        }
    }

    /// Returns whether the board can carry out `mov`.
    pub fn can_play(&self, mov: &Movement) -> (able: bool)
        ensures
            able == playable(self@, *mov),
    {
        if !Board::in_bounds(mov.from) || !Board::in_bounds(mov.to) {
            return false;
        }
        let piece = match self.piece_at(mov.from) {
            Some(piece) => piece,
            None => { return false; },
        };
        match mov.special {
            Some(SpecialMove::DoublePawn) => match piece {
                Piece::King(_) => false,
                Piece::Rook(_) => false,
                _ => true,
            },
            Some(SpecialMove::ShortCastle) => {
                let origin = Point::new(mov.from.x + 3, mov.from.y);
                let target = Point::new(mov.to.x - 1, mov.to.y);
                Board::in_bounds(origin) && Board::in_bounds(target) && self.piece_at(
                    origin,
                ).is_some()
            },
            Some(SpecialMove::LongCastle) => {
                let origin = Point::new(mov.from.x - 4, mov.from.y);
                let target = Point::new(mov.to.x + 1, mov.to.y);
                Board::in_bounds(origin) && Board::in_bounds(target) && self.piece_at(
                    origin,
                ).is_some()
            },
            Some(SpecialMove::PawnEat) => {
                if self.piece_at(mov.to).is_some() {
                    true
                } else {
                    let behind = Point::new(mov.to.x, mov.to.y - piece.color().sign());
                    Board::in_bounds(behind) && behind != mov.from
                }
            },
            _ => true,
        }
    }

    /// Closes the window for taking the pawns of `color` en passant.
    fn expire(&mut self, color: Color)
        requires
            old(self).wf(),
        ensures
            final(self)@ == expired(old(self)@, color),
            final(self).wf(),
    {
        let cells = self.all_color_pieces(color);
        proof {
            assert forall|j: int| 0 <= j < cells@.len() implies on_board(#[trigger] cells@[j]) by {
                assert(cells@.contains(cells@[j]));
            }
        }
        let mut i: usize = 0;
        while i < cells.len()
            invariant
                i <= cells.len(),
                self.wf(),
                self@.dom() == old(self)@.dom(),
                forall|p: Point| cells@.contains(p) <==> holds(old(self)@, p, color),
                forall|p: Point|
                    #![trigger self@[p]]
                    self@.contains_key(p) ==> self@[p] == if cells@.take(i as int).contains(p) {
                        expired(old(self)@, color)[p]
                    } else {
                        old(self)@[p]
                    },
                forall|j: int| 0 <= j < cells@.len() ==> on_board(#[trigger] cells@[j]),
                cells@.no_duplicates(),
            decreases cells.len() - i,
        {
            let p = cells[i];
            let ghost before = self@;
            let ghost done = cells@.take(i as int);
            proof {
                assert(done.push(p) =~= cells@.take(i as int + 1));
                if done.contains(p) {
                    let j = choose|j: int| 0 <= j < i && done[j] == p;
                    assert(cells@[j] == cells@[i as int]);
                }
            }
            match self.piece_at(p) {
                Some(Piece::Pawn(pawn)) => {
                    if pawn.state == PawnState::JustDouble {
                        let mut pawn = pawn;
                        pawn.set_state(State::PawnState(PawnState::Already));
                        self.put(p, Some(Piece::Pawn(pawn)));
                        assert(self@.dom() =~= before.dom());
                    }
                },
                _ => {},
            }
            assert forall|q: Point|
                #![trigger self@[q]]
                self@.contains_key(q) implies self@[q] == if cells@.take(i as int + 1).contains(
                    q,
                ) {
                expired(old(self)@, color)[q]
            } else {
                old(self)@[q]
            } by {
                lemma_push_holds(done, p, q);
                assert(before.contains_key(q));
                assert(cells@.contains(p));
            }
            i += 1;
        }
        proof {
            assert(cells@.take(cells.len() as int) =~= cells@);
            assert(self@ =~= expired(old(self)@, color));
        }
    }

    /// Carries out `mov` once the window for en passant has closed: marks a
    /// pawn that advances by two cells, brings the rook over in a castle,
    /// removes the pawn taken en passant, and moves the piece, or `promoted` in
    /// its place, to the new cell.
    fn apply_move(&mut self, mov: &Movement, promoted: Option<Piece>)
        requires
            old(self).wf(),
            playable(old(self)@, *mov),
        ensures
            final(self)@ == relocated(side_effect(marked(old(self)@, *mov), *mov), *mov, promoted),
            final(self).wf(),
    {
        let mut piece = match self.piece_at(mov.from) {
            Some(piece) => piece,
            None => { return; },
        };
        let color = piece.color();
        let short = mov.special == Some(SpecialMove::ShortCastle);
        let is_castle = short || mov.special == Some(SpecialMove::LongCastle);
        let is_capture = mov.special == Some(SpecialMove::PawnEat);
        let is_double = mov.special == Some(SpecialMove::DoublePawn);
        if is_double {
            piece.set_state(State::PawnState(PawnState::JustDouble));
            self.put(mov.from, Some(piece));
            assert(self@ =~= marked(old(self)@, *mov));
        }
        let ghost before = self@;
        if is_castle {
            let origin = Point::new(
                if short { mov.from.x + 3 } else { mov.from.x - 4 },
                mov.from.y,
            );
            let target = Point::new(if short { mov.to.x - 1 } else { mov.to.x + 1 }, mov.to.y);
            match self.piece_at(origin) {
                Some(rook) => {
                    let mut rook = rook;
                    rook.set_pos(target);
                    self.put(origin, None);
                    self.put(target, Some(rook));
                },
                None => {},
            }
            assert(self@ =~= side_effect(before, *mov));
        } else if is_capture && self.piece_at(mov.to).is_none() {
            let behind = Point::new(mov.to.x, mov.to.y - color.sign());
            self.put(behind, None);
            assert(self@ =~= side_effect(before, *mov));
        }
        let ghost ready = self@;
        let mut arriving = match self.piece_at(mov.from) {
            Some(mover) => match promoted {
                Some(other) => other,
                None => mover,
            },
            None => { return; },
        };
        arriving.set_pos(mov.to);
        self.put(mov.from, None);
        self.put(mov.to, Some(arriving));
        assert(self@ =~= relocated(ready, *mov, promoted));
    }

    /// Carries out `mov` without looking at what it captures.
    pub(crate) fn relocate(&mut self, mov: &Movement, promoted: Option<Piece>)
        requires
            old(self).wf(),
            playable(old(self)@, *mov),
        ensures
            final(self)@ == after_move(old(self)@, *mov, promoted),
            final(self).wf(),
    {
        let color = match self.piece_at(mov.from) {
            Some(piece) => piece.color(),
            None => { return; },
        };
        self.expire(color);
        self.apply_move(mov, promoted);
    }

    /// Carries out `mov`, with `promoted` in the place of the piece that moves if
    /// one is given, and returns the value and the color of the piece that the
    /// move captures, if it captures one.
    pub fn do_move(&mut self, mov: &Movement, promoted: Option<Piece>) -> (gain: Option<
        (u8, Color),
    >)
        requires
            old(self).wf(),
            playable(old(self)@, *mov),
            !(captured(old(self)@, *mov) matches Some(Piece::King(_))),
        ensures
            final(self)@ == after_move(old(self)@, *mov, promoted),
            final(self).wf(),
            gain == match captured(old(self)@, *mov) {
                Some(piece) => Some((piece.spec_score(), piece.spec_color())),
                None => None::<(u8, Color)>,
            },
    {
        let color = match self.piece_at(mov.from) {
            Some(piece) => piece.color(),
            None => { return None; },
        };
        let is_capture = mov.special == Some(SpecialMove::PawnEat);
        let taken = match self.piece_at(mov.to) {
            Some(piece) => Some(piece),
            None => if is_capture {
                self.piece_at(Point::new(mov.to.x, mov.to.y - color.sign()))
            } else {
                None
            },
        };
        let gain = match taken {
            Some(piece) => Some((piece.score(), piece.color())),
            None => None,
        };
        self.relocate(mov, promoted);
        gain
    }
}

} // verus!
