//! The oracle: check, checkmate and stalemate.

use super::play::{after_move, lemma_legal_is_playable};
use super::rules::{all_moves, holds, is_legal_move, legal_moves, lemma_all_moves, well_placed};
use super::Board;
use crate::geomath::{lies_between, on_board, strictly_between, Point};
use crate::types::color::Color;
use crate::types::movement::Movement;
use crate::types::moves::listed_moves;
use crate::types::piece::Piece;
use crate::unique::lemma_filter;
use vstd::prelude::*;

verus! {

/// Whether the king of `color` stands on the cell `p`.
pub open spec fn is_king_of(g: Map<Point, Piece>, p: Point, color: Color) -> bool {
    &&& g.contains_key(p)
    &&& g[p] matches Piece::King(king)
    &&& king.color == color
}

/// Whether the side `color` has a king on the board.
pub open spec fn has_king(g: Map<Point, Piece>, color: Color) -> bool {
    exists|p: Point| is_king_of(g, p, color)
}

/// Whether `p` is the cell of the king of `color`: of the first one, cell after
/// cell, should the board hold several.
pub open spec fn is_first_king(g: Map<Point, Piece>, p: Point, color: Color) -> bool {
    &&& is_king_of(g, p, color)
    &&& forall|q: Point| #[trigger] is_king_of(g, q, color) ==> p.y * 8 + p.x <= q.y * 8 + q.x
}

/// The cell of the king of `color`.
pub open spec fn king_cell(g: Map<Point, Piece>, color: Color) -> Point {
    choose|p: Point| is_first_king(g, p, color)
}

/// The first of `moves` that goes to `target`.
pub open spec fn first_onto(moves: Seq<Movement>, target: Point) -> Option<Movement>
    decreases moves.len(),
{
    if moves.len() == 0 {
        None
    } else {
        match first_onto(moves.drop_last(), target) {
            Some(m) => Some(m),
            None => if moves.last().to == target {
                Some(moves.last())
            } else {
                None
            },
        }
    }
}

/// The move by which the other side could capture the king of `color`: the first
/// of its legal moves that goes to the king's cell.
pub open spec fn check(g: Map<Point, Piece>, color: Color) -> Option<Movement> {
    first_onto(all_moves(g, color.spec_opposite()), king_cell(g, color))
}

/// Whether the king of `color` is in check: a legal move of the other side goes
/// to its cell.
pub open spec fn in_check(g: Map<Point, Piece>, color: Color) -> bool {
    exists|m: Movement|
        #[trigger] is_legal_move(g, m) && holds(g, m.from, color.spec_opposite()) && m.to
            == king_cell(g, color)
}

/// Whether `m`, a move of the side in check, stops the check `threat` without
/// moving the king: it captures the checking piece, or it ends between that piece
/// and the king.
pub open spec fn stops(g: Map<Point, Piece>, threat: Movement, m: Movement) -> bool {
    &&& !(g[m.from] is King)
    &&& (m.to == threat.from || strictly_between(threat.from, threat.to, m.to))
}

/// `stops` as a predicate on moves.
pub open spec fn stop_pred(g: Map<Point, Piece>, threat: Movement) -> spec_fn(Movement) -> bool {
    |m: Movement| stops(g, threat, m)
}

/// The legal moves of `color` that stop the check its king is in, the king's own
/// moves left out.
pub open spec fn check_stoppers(g: Map<Point, Piece>, color: Color) -> Seq<Movement> {
    all_moves(g, color).filter(stop_pred(g, check(g, color)->0))
}

/// Whether every legal move of the king of `color` leaves it in check.
pub open spec fn king_trapped(g: Map<Point, Piece>, color: Color) -> bool {
    forall|m: Movement| #[trigger]
        legal_moves(g, king_cell(g, color)).contains(m) ==> check(after_move(g, m, None), color)
            is Some
}

/// Whether the side `color` is checkmated: its king is in check, cannot step out
/// of it, and no other piece can stop it.
pub open spec fn is_checkmate(g: Map<Point, Piece>, color: Color) -> bool {
    check(g, color) is Some && king_trapped(g, color) && check_stoppers(g, color).len() == 0
}

/// Whether the side `color` is stalemated: not in check, and without a legal move.
pub open spec fn is_stalemate(g: Map<Point, Piece>, color: Color) -> bool {
    check(g, color) is None && all_moves(g, color).len() == 0
}

/// The king's cell is the cell of a king of that color, and no other cell that
/// holds one comes before it.
pub proof fn lemma_king_cell(g: Map<Point, Piece>, color: Color)
    requires
        well_placed(g),
        has_king(g, color),
    ensures
        is_first_king(g, king_cell(g, color), color),
        forall|p: Point| is_first_king(g, p, color) ==> p == king_cell(g, color),
    decreases 0int,
{
    let some = choose|p: Point| is_king_of(g, p, color);
    lemma_least_king(g, color, some, 0);
    let k = king_cell(g, color);
    assert forall|p: Point| is_first_king(g, p, color) implies p == k by {
        assert(is_king_of(g, p, color));
        assert(is_king_of(g, k, color));
        assert(on_board(p) && on_board(k));
    }
}

/// If a king of `color` stands on `some`, and none on a cell before the `n`-th,
/// then one of the kings of `color` is the first.
proof fn lemma_least_king(g: Map<Point, Piece>, color: Color, some: Point, n: nat)
    requires
        well_placed(g),
        is_king_of(g, some, color),
        forall|q: Point| #[trigger] is_king_of(g, q, color) ==> q.y * 8 + q.x >= n,
    ensures
        exists|p: Point| is_first_king(g, p, color),
    decreases 64 - n,
{
    assert(on_board(some));
    let here = Point { x: (n % 8) as isize, y: (n / 8) as isize };
    if n < 64 && is_king_of(g, here, color) {
        assert(is_first_king(g, here, color));
    } else {
        assert forall|q: Point| #[trigger] is_king_of(g, q, color) implies q.y * 8 + q.x >= n
            + 1 by {
            assert(on_board(q));
            if q.y * 8 + q.x == n {
                assert(q == here);
            }
        }
        lemma_least_king(g, color, some, n + 1);
    }
}

/// Once a move onto `target` is found among the first `k` moves, it stays the
/// first whatever follows.
pub proof fn lemma_first_onto_found(moves: Seq<Movement>, target: Point, k: int)
    requires
        0 <= k <= moves.len(),
        first_onto(moves.take(k), target) is Some,
    ensures
        first_onto(moves, target) == first_onto(moves.take(k), target),
    decreases moves.len() - k,
{
    if k < moves.len() {
        assert(moves.take(k + 1).drop_last() =~= moves.take(k));
        lemma_first_onto_found(moves, target, k + 1);
    } else {
        assert(moves.take(k) =~= moves);
    }
}

/// The first move onto `target` is one of the moves and goes there; there is
/// none only if no move goes there.
pub proof fn lemma_first_onto(moves: Seq<Movement>, target: Point)
    ensures
        first_onto(moves, target) matches Some(m) ==> moves.contains(m) && m.to == target,
        first_onto(moves, target) is None ==> forall|i: int|
            0 <= i < moves.len() ==> (#[trigger] moves[i]).to != target,
    decreases moves.len(),
{
    if moves.len() > 0 {
        let front = moves.drop_last();
        lemma_first_onto(front, target);
        match first_onto(front, target) {
            Some(m) => {
                let i = choose|i: int| 0 <= i < front.len() && front[i] == m;
                assert(moves[i] == m);
            },
            None => {
                assert(moves[moves.len() - 1] == moves.last());
                assert forall|i: int| 0 <= i < moves.len() - 1 implies (#[trigger] moves[i]).to
                    != target || moves[i].to != target by {
                    assert(front[i] == moves[i]);
                }
                if moves.last().to != target {
                    assert forall|i: int| 0 <= i < moves.len() implies (#[trigger] moves[i]).to
                        != target by {
                        if i < moves.len() - 1 {
                            assert(front[i] == moves[i]);
                        }
                    }
                }
            },
        }
    }
}

/// A king is in check exactly when `check` finds a move, and that move is a legal
/// move of the other side onto the king's cell.
pub proof fn lemma_check(g: Map<Point, Piece>, color: Color)
    requires
        well_placed(g),
    ensures
        check(g, color) is Some <==> in_check(g, color),
        check(g, color) matches Some(m) ==> is_legal_move(g, m) && holds(
            g,
            m.from,
            color.spec_opposite(),
        ) && m.to == king_cell(g, color),
{
    let moves = all_moves(g, color.spec_opposite());
    let target = king_cell(g, color);
    lemma_all_moves(g, color.spec_opposite());
    lemma_first_onto(moves, target);
    match check(g, color) {
        Some(m) => {
            assert(moves.contains(m));
            assert(is_legal_move(g, m));
        },
        None => {
            assert forall|m: Movement|
                !(#[trigger] is_legal_move(g, m) && holds(g, m.from, color.spec_opposite()) && m.to
                    == target) by {
                if is_legal_move(g, m) && holds(g, m.from, color.spec_opposite()) {
                    assert(moves.contains(m));
                    let i = choose|i: int| 0 <= i < moves.len() && moves[i] == m;
                    assert(moves[i].to != target);
                }
            }
        },
    }
}

impl Board {
    /// Returns whether a king of the given color stands on the board.
    pub fn has_king(&self, color: Color) -> (found: bool)
        ensures
            found == has_king(self@, color),
    {
        let mut n: usize = 0;
        while n < 64
            invariant
                n <= 64,
                forall|q: Point| #[trigger] is_king_of(self@, q, color) ==> q.y * 8 + q.x >= n,
            decreases 64 - n,
        {
            let p = Point::new((n % 8) as isize, (n / 8) as isize);
            match self.piece_at(p) {
                Some(Piece::King(king)) => {
                    if king.color == color {
                        assert(is_king_of(self@, p, color));
                        return true;
                    }
                },
                _ => {},
            }
            assert forall|q: Point| #[trigger] is_king_of(self@, q, color) implies q.y * 8 + q.x
                >= n + 1 by {
                self.lemma_cells_on_board(q);
                if q.y * 8 + q.x == n {
                    assert(q == p);
                }
            }
            n += 1;
        }
        proof {
            assert forall|q: Point| !is_king_of(self@, q, color) by {
                self.lemma_cells_on_board(q);
            }
        }
        false
    }

    /// Returns the coordinates of the king of the given color.
    pub fn find_king(&self, color: Color) -> (cell: Point)
        requires
            self.wf(),
            has_king(self@, color),
        ensures
            cell == king_cell(self@, color),
            is_first_king(self@, cell, color),
    {
        proof {
            lemma_king_cell(self@, color);
        }
        let mut n: usize = 0;
        while n < 64
            invariant
                n <= 64,
                self.wf(),
                forall|q: Point| #[trigger] is_king_of(self@, q, color) ==> q.y * 8 + q.x >= n,
                forall|p: Point| is_first_king(self@, p, color) ==> p == king_cell(self@, color),
            decreases 64 - n,
        {
            let p = Point::new((n % 8) as isize, (n / 8) as isize);
            match self.piece_at(p) {
                Some(Piece::King(king)) => {
                    if king.color == color {
                        assert(is_first_king(self@, p, color));
                        return p;
                    }
                },
                _ => {},
            }
            assert forall|q: Point| #[trigger] is_king_of(self@, q, color) implies q.y * 8 + q.x
                >= n + 1 by {
                assert(on_board(q));
                if q.y * 8 + q.x == n {
                    assert(q == p);
                }
            }
            n += 1;
        }
        proof {
            let some = choose|p: Point| is_king_of(self@, p, color);
            assert(is_king_of(self@, some, color));
            assert(on_board(some));
        }
        Point::new(0, 0)
    }

    /// Returns the move by which the other side could capture the king of
    /// `color`, or `None` if that king is not in check.
    #[verifier::loop_isolation(false)]
    pub fn check(&self, color: Color) -> (threat: Option<Movement>)
        requires
            self.wf(),
            has_king(self@, color),
        ensures
            threat == check(self@, color),
            threat is Some <==> in_check(self@, color),
            threat matches Some(m) ==> is_legal_move(self@, m) && holds(
                self@,
                m.from,
                color.spec_opposite(),
            ) && m.to == king_cell(self@, color),
    {
        let target = self.find_king(color);
        let moves = self.all_moves(color.opposite());
        proof {
            lemma_check(self@, color);
            assert(moves@.take(0) =~= Seq::<Movement>::empty());
        }
        let mut i: usize = 0;
        while i < moves.len()
            invariant
                i <= moves.len(),
                first_onto(moves@.take(i as int), target) is None,
            decreases moves.len() - i,
        {
            proof {
                assert(moves@.take(i as int + 1).drop_last() =~= moves@.take(i as int));
            }
            if moves[i].to == target {
                proof {
                    assert(moves@.take(i as int + 1).last() == moves@[i as int]);
                    lemma_first_onto_found(moves@, target, i as int + 1);
                }
                return Some(moves[i]);
            }
            i += 1;
        }
        proof {
            assert(moves@.take(moves.len() as int) =~= moves@);
        }
        None
    }

    /// Can the player stop the check by moving a piece other than the king?
    /// Returns the moves that do so: those that capture the checking piece or put
    /// a piece between it and the king.
    #[verifier::loop_isolation(false)]
    pub fn is_check_stoppable(&self, color: Color) -> (moves: Vec<Movement>)
        requires
            self.wf(),
            has_king(self@, color),
            check(self@, color) is Some,
        ensures
            moves@ == check_stoppers(self@, color),
            forall|m: Movement|
                #![trigger moves@.contains(m)]
                moves@.contains(m) <==> (is_legal_move(self@, m) && holds(self@, m.from, color)
                    && stops(self@, check(self@, color)->0, m)),
    {
        let mut stoppers: Vec<Movement> = Vec::new();
        let threat = match self.check(color) {
            Some(threat) => threat,
            None => { return stoppers; },
        };
        let own = self.all_moves(color);
        let ghost pred = stop_pred(self@, threat);
        proof {
            assert(own@.take(0) =~= Seq::<Movement>::empty());
            lemma_filter(Seq::<Movement>::empty(), pred);
            assert(Seq::<Movement>::empty().filter(pred) =~= Seq::<Movement>::empty());
        }
        let mut i: usize = 0;
        while i < own.len()
            invariant
                i <= own.len(),
                stoppers@ == own@.take(i as int).filter(pred),
            decreases own.len() - i,
        {
            let m = own[i];
            assert(own@.contains(m));
            proof {
                own@.take(i as int).lemma_filter_push(m, pred);
                assert(own@.take(i as int).push(m) =~= own@.take(i as int + 1));
            }
            let by_king = match self.piece_at(m.from) {
                Some(piece) => piece.is_king(),
                None => false,
            };
            if !by_king && (m.to == threat.from || lies_between(threat.from, threat.to, m.to)) {
                stoppers.push(m);
            }
            i += 1;
        }
        proof {
            assert(own@.take(own.len() as int) =~= own@);
            lemma_filter(own@, pred);
            assert forall|m: Movement|
                #![trigger stoppers@.contains(m)]
                stoppers@.contains(m) <==> (is_legal_move(self@, m) && holds(self@, m.from, color)
                    && stops(self@, threat, m)) by {
                assert(pred(m) == stops(self@, threat, m));
            }
        }
        stoppers
    }

    /// Returns whether every move of the king of `color` leaves it in check.
    #[verifier::loop_isolation(false)]
    pub fn checks_around(&self, color: Color) -> (trapped: bool)
        requires
            self.wf(),
            has_king(self@, color),
        ensures
            trapped == king_trapped(self@, color),
    {
        let cell = self.find_king(color);
        let steps = listed_moves(&self.filtered_move_set(cell));
        let mut i: usize = 0;
        while i < steps.len()
            invariant
                i <= steps.len(),
                forall|j: int|
                    0 <= j < i ==> check(after_move(self@, #[trigger] steps@[j], None), color)
                        is Some,
            decreases steps.len() - i,
        {
            let m = steps[i];
            assert(steps@.contains(m));
            proof {
                lemma_legal_is_playable(self@, m);
            }
            let mut probe = self.clone();
            probe.relocate(&m, None);
            assert(is_king_of(probe@, m.to, color));
            if probe.check(color).is_none() {
                return false;
            }
            i += 1;
        }
        proof {
            assert forall|m: Movement| #[trigger]
                legal_moves(self@, cell).contains(m) implies check(
                after_move(self@, m, None),
                color,
            ) is Some by {
                let j = choose|j: int| 0 <= j < steps@.len() && steps@[j] == m;
                assert(check(after_move(self@, steps@[j], None), color) is Some);
            }
        }
        true
    }

    /// Returns whether the side `color` is checkmated: in check, with no move of
    /// the king that leaves the check and no move of another piece that stops it.
    pub fn checkmate(&self, color: Color) -> (mate: bool)
        requires
            self.wf(),
            has_king(self@, color),
        ensures
            mate == is_checkmate(self@, color),
    {
        self.check(color).is_some() && self.checks_around(color) && self.is_check_stoppable(
            color,
        ).len() == 0
    }

    /// Returns whether the side `color` is stalemated: not in check, and without
    /// a move.
    pub fn stalemate(&self, color: Color) -> (stale: bool)
        requires
            self.wf(),
            has_king(self@, color),
        ensures
            stale == is_stalemate(self@, color),
    {
        self.check(color).is_none() && self.all_moves(color).len() == 0
    }
}

} // verus!
