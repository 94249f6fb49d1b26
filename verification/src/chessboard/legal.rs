//! The legality filter: which candidates of a piece the board lets through.

use super::play::{lemma_legal_is_playable, playable};
use super::rules::{
    all_moves, attacked, castle_ok, cell_point, holds, is_legal, is_legal_move, is_plain_move, legal_moves,
    legal_pred, lemma_all_moves, lemma_legal_moves, lemma_moves_skip, moves_upto,
    passes_occupancy, path_clear, plain_special_ok,
};
use super::Board;
use crate::geomath::{chebyshev, is_linear, on_board, strictly_between, Point};
use crate::types::color::Color;
use crate::types::movement::{Movement, SpecialMove};
use crate::types::moves::{append_new, insert_move, listed_moves, move_seq, new_move_set};
use crate::types::piece::{PawnState, Piece, PieceState};
use crate::unique::lemma_filter;
use indexmap::IndexSet;
use vstd::prelude::*;

verus! {

impl Board {
    /// Returns whether every cell strictly between `a` and `b` is empty.
    pub fn path_is_clear(&self, a: Point, b: Point) -> (clear: bool)
        requires
            on_board(a),
            on_board(b),
        ensures
            clear == path_clear(self@, a, b),
    {
        let dx = b.x - a.x;
        let dy = b.y - a.y;
        let adx = if dx < 0 { -dx } else { dx };
        let ady = if dy < 0 { -dy } else { dy };
        if !(dx == 0 || dy == 0 || adx == ady) {
            return true;
        }
        let n = if adx >= ady { adx } else { ady };
        let mut k: isize = 1;
        while k < n
            invariant
                1 <= k,
                on_board(a),
                on_board(b),
                dx == b.x - a.x,
                dy == b.y - a.y,
                is_linear(dx as int, dy as int),
                n == chebyshev(dx as int, dy as int),
                forall|s: Point|
                    #![trigger strictly_between(a, b, s)]
                    strictly_between(a, b, s) && chebyshev(s.x - a.x, s.y - a.y) < k
                        ==> !self@.contains_key(s),
            decreases n - k,
        {
            let s = Point::new(
                if dx > 0 { a.x + k } else if dx < 0 { a.x - k } else { a.x },
                if dy > 0 { a.y + k } else if dy < 0 { a.y - k } else { a.y },
            );
            assert(strictly_between(a, b, s));
            if self.piece_at(s).is_some() {
                return false;
            }
            assert forall|t: Point|
                #![trigger strictly_between(a, b, t)]
                strictly_between(a, b, t) && chebyshev(t.x - a.x, t.y - a.y) < k
                    + 1 implies !self@.contains_key(t) by {
                if chebyshev(t.x - a.x, t.y - a.y) == k {
                    assert(t == s);
                }
            }
            k += 1;
        }
        true
    }

    /// Returns whether the candidate `m` of `mover` passes the first filter.
    fn passes(&self, mover: &Piece, m: &Movement) -> (ok: bool)
        requires
            on_board(m.from),
            on_board(m.to),
        ensures
            ok == passes_occupancy(self@, *mover, *m),
    {
        let free = match self.piece_at(m.to) {
            Some(other) => other.color() != mover.color(),
            None => true,
        };
        free && (m.direction.is_none() || self.path_is_clear(m.from, m.to))
    }

    /// Returns whether the candidate `m` of `mover` meets the condition of its
    /// special move, where a castle meets none.
    fn plain_special_holds(&self, mover: &Piece, m: &Movement) -> (ok: bool)
        requires
            on_board(m.from),
            on_board(m.to),
        ensures
            ok == plain_special_ok(self@, *mover, *m),
    {
        match m.special {
            None => true,
            Some(SpecialMove::CannotEat) => self.piece_at(m.to).is_none(),
            Some(SpecialMove::DoublePawn) => {
                let fresh = match mover {
                    Piece::Pawn(pawn) => pawn.state == PawnState::NotYet,
                    _ => false,
                };
                let ahead = Point::new(m.from.x, m.from.y + mover.color().sign());
                fresh && self.piece_at(ahead).is_none() && self.piece_at(m.to).is_none()
            },
            Some(SpecialMove::PawnEat) => {
                match self.piece_at(m.to) {
                    Some(other) => other.color() != mover.color(),
                    None => {
                        let behind = Point::new(m.to.x, m.to.y - mover.color().sign());
                        match self.piece_at(behind) {
                            Some(Piece::Pawn(pawn)) => pawn.state == PawnState::JustDouble
                                && pawn.color != mover.color(),
                            _ => false,
                        }
                    },
                }
            },
            Some(SpecialMove::LongCastle) => false,
            Some(SpecialMove::ShortCastle) => false,
        }
    }

    /// Returns whether the piece on `from` may move to `target`, castles left out.
    #[verifier::loop_isolation(false)]
    fn attacks_from(&self, from: Point, target: Point) -> (hit: bool)
        requires
            self.wf(),
            self@.contains_key(from),
        ensures
            hit == exists|m: Movement|
                #[trigger] is_plain_move(self@, m) && m.from == from && m.to == target,
    {
        let mover = match self.piece_at(from) {
            Some(piece) => piece,
            None => { return false; },
        };
        let candidates = listed_moves(&mover.move_set());
        let mut i: usize = 0;
        while i < candidates.len()
            invariant
                i <= candidates.len(),
                forall|j: int|
                    0 <= j < i ==> !(#[trigger] is_plain_move(self@, candidates@[j])
                        && candidates@[j].to == target),
            decreases candidates.len() - i,
        {
            let m = candidates[i];
            assert(candidates@.contains(m));
            if m.to == target && self.passes(&mover, &m) && self.plain_special_holds(&mover, &m) {
                assert(is_plain_move(self@, m));
                return true;
            }
            i += 1;
        }
        proof {
            assert forall|m: Movement|
                !(#[trigger] is_plain_move(self@, m) && m.from == from && m.to == target) by {
                if is_plain_move(self@, m) && m.from == from && m.to == target {
                    assert(candidates@.contains(m));
                    let j = choose|j: int| 0 <= j < candidates@.len() && candidates@[j] == m;
                    assert(is_plain_move(self@, candidates@[j]));
                }
            }
        }
        false
    }

    /// Returns whether a piece of the side `by` may move to `target`, castles
    /// left out.
    pub fn is_attacked(&self, target: Point, by: Color) -> (hit: bool)
        requires
            self.wf(),
        ensures
            hit == attacked(self@, target, by),
    {
        let mut n: usize = 0;
        while n < 64
            invariant
                n <= 64,
                self.wf(),
                forall|m: Movement|
                    #[trigger] is_plain_move(self@, m) && holds(self@, m.from, by) && m.to == target
                        ==> m.from.y * 8 + m.from.x >= n,
            decreases 64 - n,
        {
            let p = Point::new((n % 8) as isize, (n / 8) as isize);
            match self.piece_at(p) {
                Some(piece) => {
                    if piece.color() == by && self.attacks_from(p, target) {
                        return true;
                    }
                },
                None => {},
            }
            assert forall|m: Movement|
                #[trigger] is_plain_move(self@, m) && holds(self@, m.from, by) && m.to
                    == target implies m.from.y * 8 + m.from.x >= n + 1 by {
                if m.from.y * 8 + m.from.x == n {
                    assert(on_board(m.from));
                    assert(m.from == p);
                }
            }
            n += 1;
        }
        proof {
            assert forall|m: Movement|
                !(#[trigger] is_plain_move(self@, m) && holds(self@, m.from, by) && m.to
                    == target) by {
                if self@.contains_key(m.from) {
                    assert(on_board(m.from));
                }
            }
        }
        false
    }

    /// Returns whether the king `mover` may castle by `m`: the short castle if
    /// `short`, the long one if not.
    fn castle_holds(&self, mover: &Piece, m: &Movement, short: bool) -> (ok: bool)
        requires
            self.wf(),
            on_board(m.from),
            on_board(m.to),
        ensures
            ok == castle_ok(self@, *mover, *m, short),
    {
        let king = match mover {
            Piece::King(king) => king,
            _ => { return false; },
        };
        let rook_cell = Point::new(if short { m.from.x + 3 } else { m.from.x - 4 }, m.from.y);
        let transit = Point::new(if short { m.from.x + 1 } else { m.from.x - 1 }, m.from.y);
        if king.state != PieceState::NotYet || !Board::in_bounds(rook_cell) {
            return false;
        }
        let with_rook = match self.piece_at(rook_cell) {
            Some(Piece::Rook(rook)) => rook.state == PieceState::NotYet && rook.color == king.color,
            _ => false,
        };
        let enemy = king.color.opposite();
        with_rook && self.path_is_clear(m.from, rook_cell) && !self.is_attacked(m.from, enemy)
            && !self.is_attacked(transit, enemy) && !self.is_attacked(m.to, enemy)
    }

    /// Returns whether the candidate `m` of `mover` passes both filters.
    fn lets_through(&self, mover: &Piece, m: &Movement) -> (ok: bool)
        requires
            self.wf(),
            on_board(m.from),
            on_board(m.to),
        ensures
            ok == is_legal(self@, *mover, *m),
    {
        if !self.passes(mover, m) {
            return false;
        }
        match m.special {
            Some(SpecialMove::LongCastle) => self.castle_holds(mover, m, false),
            Some(SpecialMove::ShortCastle) => self.castle_holds(mover, m, true),
            _ => self.plain_special_holds(mover, m),
        }
    }

    /// From the move set of the piece on `from`, returns only the possible moves:
    /// those that no piece stands in the way of, and whose special move, if
    /// any, meets its condition.
    #[verifier::loop_isolation(false)]
    pub fn filtered_move_set(&self, from: Point) -> (set: IndexSet<Movement>)
        requires
            self.wf(),
            self@.contains_key(from),
        ensures
            move_seq(set) == legal_moves(self@, from),
            move_seq(set).no_duplicates(),
            forall|m: Movement|
                #![trigger move_seq(set).contains(m)]
                move_seq(set).contains(m) <==> (m.from == from && is_legal_move(self@, m)),
            forall|m: Movement|
                #![trigger move_seq(set).contains(m)]
                move_seq(set).contains(m) ==> playable(self@, m),
    {
        let mut set = new_move_set();
        let mover = match self.piece_at(from) {
            Some(piece) => piece,
            None => { return set; },
        };
        let candidates = listed_moves(&mover.move_set());
        let ghost pred = legal_pred(self@, mover);
        proof {
            assert(candidates@.take(0) =~= Seq::<Movement>::empty());
            lemma_filter(Seq::<Movement>::empty(), pred);
            assert(Seq::<Movement>::empty().filter(pred) =~= Seq::<Movement>::empty());
        }
        let mut i: usize = 0;
        while i < candidates.len()
            invariant
                i <= candidates.len(),
                move_seq(set) == candidates@.take(i as int).filter(pred),
            decreases candidates.len() - i,
        {
            let m = candidates[i];
            assert(candidates@.contains(m));
            proof {
                let before = candidates@.take(i as int);
                before.lemma_filter_push(m, pred);
                assert(before.push(m) =~= candidates@.take(i as int + 1));
                lemma_filter(before, pred);
                if before.contains(m) {
                    let j = choose|j: int| 0 <= j < before.len() && before[j] == m;
                    assert(candidates@[j] == candidates@[i as int]);
                }
                assert(!before.filter(pred).contains(m));
            }
            if self.lets_through(&mover, &m) {
                insert_move(&mut set, m);
            }
            i += 1;
        }
        proof {
            assert(candidates@.take(candidates.len() as int) =~= candidates@);
            lemma_legal_moves(self@, from);
            assert forall|m: Movement|
                #![trigger move_seq(set).contains(m)]
                move_seq(set).contains(m) implies playable(self@, m) by {
                lemma_legal_is_playable(self@, m);
            }
        }
        set
    }

    /// Returns all the moves that the player `color` can make.
    pub fn all_moves(&self, color: Color) -> (moves: Vec<Movement>)
        requires
            self.wf(),
        ensures
            moves@ == all_moves(self@, color),
            moves@.no_duplicates(),
            forall|m: Movement|
                #![trigger moves@.contains(m)]
                moves@.contains(m) <==> (is_legal_move(self@, m) && holds(self@, m.from, color)),
    {
        let cells = self.all_color_pieces(color);
        let mut moves: Vec<Movement> = Vec::new();
        proof {
            assert forall|j: int| 0 <= j < cells@.len() implies on_board(#[trigger] cells@[j])
                && holds(self@, cells@[j], color) by {
                assert(cells@.contains(cells@[j]));
            }
            let first: nat = if cells@.len() == 0 {
                64
            } else {
                (cells@[0].y * 8 + cells@[0].x) as nat
            };
            assert forall|p: Point| #[trigger] holds(self@, p, color) implies !(0 <= p.y * 8 + p.x
                < first) by {
                assert(cells@.contains(p));
                let j = choose|j: int| 0 <= j < cells@.len() && cells@[j] == p;
                if j > 0 {
                    assert(cells@[0].y * 8 + cells@[0].x < cells@[j].y * 8 + cells@[j].x);
                }
            }
            lemma_moves_skip(self@, color, 0, first);
        }
        let mut i: usize = 0;
        while i < cells.len()
            invariant
                i <= cells.len(),
                self.wf(),
                cells@.no_duplicates(),
                forall|p: Point| cells@.contains(p) <==> holds(self@, p, color),
                forall|j: int, k: int|
                    0 <= j < k < cells@.len() ==> cells@[j].y * 8 + cells@[j].x < cells@[k].y * 8
                        + cells@[k].x,
                forall|j: int|
                    0 <= j < cells@.len() ==> on_board(#[trigger] cells@[j]) && holds(
                        self@,
                        cells@[j],
                        color,
                    ),
                moves@ == moves_upto(
                    self@,
                    color,
                    if i < cells@.len() {
                        (cells@[i as int].y * 8 + cells@[i as int].x) as nat
                    } else {
                        64
                    },
                ),
            decreases cells.len() - i,
        {
            let p = cells[i];
            let found = listed_moves(&self.filtered_move_set(p));
            append_new(&mut moves, &found);
            proof {
                let here = (p.y * 8 + p.x) as nat;
                let next: nat = if i + 1 < cells@.len() {
                    (cells@[i as int + 1].y * 8 + cells@[i as int + 1].x) as nat
                } else {
                    64
                };
                assert(cell_point(here as int) == p);
                assert(moves@ == moves_upto(self@, color, here + 1));
                assert forall|q: Point| #[trigger] holds(self@, q, color) implies !(here + 1 <= q.y
                    * 8 + q.x < next) by {
                    assert(cells@.contains(q));
                    let j = choose|j: int| 0 <= j < cells@.len() && cells@[j] == q;
                    if j < i {
                        assert(cells@[j].y * 8 + cells@[j].x < cells@[i as int].y * 8
                            + cells@[i as int].x);
                    } else if j > i + 1 {
                        assert(cells@[i as int + 1].y * 8 + cells@[i as int + 1].x
                            < cells@[j].y * 8 + cells@[j].x);
                    }
                }
                lemma_moves_skip(self@, color, here + 1, next);
            }
            i += 1;
        }
        proof {
            lemma_all_moves(self@, color);
        }
        moves
    }
}

} // verus!
