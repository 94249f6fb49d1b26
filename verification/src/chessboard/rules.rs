//! What is legal on a board, stated over its contents: the map from each
//! occupied cell to the piece that stands on it.

use crate::geomath::{on_board, strictly_between, Point};
use crate::types::color::Color;
use crate::types::movement::{Movement, SpecialMove};
use crate::types::piece::{PawnState, Piece, PieceState};
use crate::unique::{extend_unique, lemma_extend_unique, lemma_filter};
use vstd::prelude::*;

verus! {

/// The cell with the number `n`, counting along the ranks from the cell (0, 0).
pub open spec fn cell_point(n: int) -> Point {
    Point { x: (n % 8) as isize, y: (n / 8) as isize }
}

/// Whether each piece stands on a cell of the board and knows its cell.
pub open spec fn well_placed(g: Map<Point, Piece>) -> bool {
    forall|p: Point|
        #![trigger g.contains_key(p)]
        #![trigger g[p]]
        g.contains_key(p) ==> on_board(p) && g[p].spec_pos() == p
}

/// What stands on the cell `p`.
pub open spec fn occupant(g: Map<Point, Piece>, p: Point) -> Option<Piece> {
    if g.contains_key(p) {
        Some(g[p])
    } else {
        None
    }
}

/// Whether a piece of the side `color` stands on the cell `p`.
pub open spec fn holds(g: Map<Point, Piece>, p: Point, color: Color) -> bool {
    g.contains_key(p) && g[p].spec_color() == color
}

/// The point `p` moved by `(dx, dy)`.
pub open spec fn shifted(p: Point, dx: int, dy: int) -> Point {
    Point { x: (p.x + dx) as isize, y: (p.y + dy) as isize }
}

/// Whether every cell strictly between `a` and `b` is empty.
pub open spec fn path_clear(g: Map<Point, Piece>, a: Point, b: Point) -> bool {
    forall|s: Point|
        #![trigger strictly_between(a, b, s)]
        #![trigger g.contains_key(s)]
        strictly_between(a, b, s) ==> !g.contains_key(s)
}

/// The first filter. A candidate that has a direction is stopped by any piece
/// between its two ends; any candidate is stopped by a piece of its own side on
/// the cell it goes to.
pub open spec fn passes_occupancy(g: Map<Point, Piece>, mover: Piece, m: Movement) -> bool {
    &&& m.direction is Some ==> path_clear(g, m.from, m.to)
    &&& !holds(g, m.to, mover.spec_color())
}

/// A pawn advances by two cells only if it has never done so and both cells
/// ahead of it are empty.
pub open spec fn double_pawn_ok(g: Map<Point, Piece>, mover: Piece, m: Movement) -> bool {
    &&& mover matches Piece::Pawn(pawn)
    &&& pawn.state == PawnState::NotYet
    &&& !g.contains_key(shifted(m.from, 0, mover.spec_color().spec_sign() as int))
    &&& !g.contains_key(m.to)
}

/// A pawn goes diagonally only to capture: a piece of the other side on the cell
/// it goes to or, if that cell is empty, a pawn of the other side that has just
/// advanced by two cells and stands right behind that cell (en passant).
pub open spec fn pawn_eat_ok(g: Map<Point, Piece>, mover: Piece, m: Movement) -> bool {
    if g.contains_key(m.to) {
        g[m.to].spec_color() != mover.spec_color()
    } else {
        let behind = shifted(m.to, 0, -(mover.spec_color().spec_sign() as int));
        &&& g.contains_key(behind)
        &&& g[behind] matches Piece::Pawn(pawn)
        &&& pawn.state == PawnState::JustDouble
        &&& pawn.color != mover.spec_color()
    }
}

/// The second filter without the castles, which it refuses: the conditions of
/// the pawn's special moves.
pub open spec fn plain_special_ok(g: Map<Point, Piece>, mover: Piece, m: Movement) -> bool {
    match m.special {
        None => true,
        Some(SpecialMove::CannotEat) => !g.contains_key(m.to),
        Some(SpecialMove::DoublePawn) => double_pawn_ok(g, mover, m),
        Some(SpecialMove::PawnEat) => pawn_eat_ok(g, mover, m),
        Some(SpecialMove::LongCastle) => false,
        Some(SpecialMove::ShortCastle) => false,
    }
}

/// Whether `m` is a move that the piece on its first cell may make, castles left
/// out: one of its candidates that passes both filters.
pub open spec fn is_plain_move(g: Map<Point, Piece>, m: Movement) -> bool {
    &&& g.contains_key(m.from)
    &&& g[m.from].reaches(m)
    &&& passes_occupancy(g, g[m.from], m)
    &&& plain_special_ok(g, g[m.from], m)
}

/// Whether a piece of the side `by` may move to the cell `s`, castles left out.
///
/// Castles are left out on purpose. A castle captures nothing, and whether a king
/// may castle depends on what the other side attacks: were the castles of the
/// other side counted here, the question would come back to the first king and
/// never end.
pub open spec fn attacked(g: Map<Point, Piece>, s: Point, by: Color) -> bool {
    exists|m: Movement| #[trigger] is_plain_move(g, m) && holds(g, m.from, by) && m.to == s
}

/// The cell of the rook that a castle from `from` is made with: three files to
/// the right for the short one, four to the left for the long one.
pub open spec fn castle_rook_cell(from: Point, short: bool) -> Point {
    if short {
        shifted(from, 3, 0)
    } else {
        shifted(from, -4, 0)
    }
}

/// The cell that the king passes in a castle from `from`.
pub open spec fn castle_transit_cell(from: Point, short: bool) -> Point {
    if short {
        shifted(from, 1, 0)
    } else {
        shifted(from, -1, 0)
    }
}

/// A king castles only if neither it nor the rook of its side on the rook's cell
/// has moved, every cell between the two is empty, and the other side attacks
/// none of the cells the king starts from, passes and arrives at.
pub open spec fn castle_ok(g: Map<Point, Piece>, mover: Piece, m: Movement, short: bool) -> bool {
    let rook_cell = castle_rook_cell(m.from, short);
    let enemy = mover.spec_color().spec_opposite();
    &&& mover matches Piece::King(king)
    &&& king.state == PieceState::NotYet
    &&& on_board(rook_cell)
    &&& g.contains_key(rook_cell)
    &&& g[rook_cell] matches Piece::Rook(rook)
    &&& rook.state == PieceState::NotYet
    &&& rook.color == king.color
    &&& path_clear(g, m.from, rook_cell)
    &&& !attacked(g, m.from, enemy)
    &&& !attacked(g, castle_transit_cell(m.from, short), enemy)
    &&& !attacked(g, m.to, enemy)
}

/// The second filter: the conditions of the special moves.
pub open spec fn special_ok(g: Map<Point, Piece>, mover: Piece, m: Movement) -> bool {
    match m.special {
        Some(SpecialMove::LongCastle) => castle_ok(g, mover, m, false),
        Some(SpecialMove::ShortCastle) => castle_ok(g, mover, m, true),
        _ => plain_special_ok(g, mover, m),
    }
}

/// Whether the candidate `m` of the piece `mover` passes both filters.
pub open spec fn is_legal(g: Map<Point, Piece>, mover: Piece, m: Movement) -> bool {
    passes_occupancy(g, mover, m) && special_ok(g, mover, m)
}

/// `is_legal` as a predicate on candidates.
pub open spec fn legal_pred(g: Map<Point, Piece>, mover: Piece) -> spec_fn(Movement) -> bool {
    |m: Movement| is_legal(g, mover, m)
}

/// Whether `m` is a legal move on the board: a candidate of the piece that
/// stands on its first cell, which passes both filters.
pub open spec fn is_legal_move(g: Map<Point, Piece>, m: Movement) -> bool {
    &&& g.contains_key(m.from)
    &&& g[m.from].reaches(m)
    &&& is_legal(g, g[m.from], m)
}

/// The legal moves of the piece on the cell `from`: its candidates that pass
/// both filters, in the order of the candidates.
pub open spec fn legal_moves(g: Map<Point, Piece>, from: Point) -> Seq<Movement> {
    g[from].spec_move_set().filter(legal_pred(g, g[from]))
}

/// The legal moves of the pieces of `color` on the first `n` cells, each once.
pub open spec fn moves_upto(g: Map<Point, Piece>, color: Color, n: nat) -> Seq<Movement>
    decreases n,
{
    if n == 0 {
        Seq::empty()
    } else {
        let before = moves_upto(g, color, (n - 1) as nat);
        if holds(g, cell_point(n - 1), color) {
            extend_unique(before, legal_moves(g, cell_point(n - 1)))
        } else {
            before
        }
    }
}

/// All the legal moves of the side `color`, each once, cell after cell.
pub open spec fn all_moves(g: Map<Point, Piece>, color: Color) -> Seq<Movement> {
    moves_upto(g, color, 64)
}

/// The legal moves from a cell are the legal moves of the board that start
/// there, each once.
pub proof fn lemma_legal_moves(g: Map<Point, Piece>, from: Point)
    requires
        well_placed(g),
        g.contains_key(from),
    ensures
        legal_moves(g, from).no_duplicates(),
        forall|m: Movement|
            #![trigger legal_moves(g, from).contains(m)]
            legal_moves(g, from).contains(m) <==> (m.from == from && is_legal_move(g, m)),
{
    let mover = g[from];
    mover.lemma_move_set();
    lemma_filter(mover.spec_move_set(), legal_pred(g, mover));
    assert forall|m: Movement|
        #![trigger legal_moves(g, from).contains(m)]
        legal_moves(g, from).contains(m) <==> (m.from == from && is_legal_move(g, m)) by {
        assert(legal_pred(g, mover)(m) == is_legal(g, mover, m));
        if mover.reaches(m) {
            assert(mover.spec_move_set().contains(m));
        }
    }
}

/// The moves gathered from the first `n` cells are the legal moves of `color`
/// that start on one of them, each once.
pub proof fn lemma_moves_upto(g: Map<Point, Piece>, color: Color, n: nat)
    requires
        well_placed(g),
        n <= 64,
    ensures
        moves_upto(g, color, n).no_duplicates(),
        forall|m: Movement|
            #![trigger moves_upto(g, color, n).contains(m)]
            moves_upto(g, color, n).contains(m) <==> (is_legal_move(g, m) && holds(g, m.from, color)
                && m.from.y * 8 + m.from.x < n),
    decreases n,
{
    if n > 0 {
        let before = moves_upto(g, color, (n - 1) as nat);
        let p = cell_point(n - 1);
        lemma_moves_upto(g, color, (n - 1) as nat);
        if holds(g, p, color) {
            lemma_legal_moves(g, p);
            lemma_extend_unique(before, legal_moves(g, p));
        }
        assert(p.y * 8 + p.x == n - 1);
        assert forall|m: Movement|
            #![trigger moves_upto(g, color, n).contains(m)]
            moves_upto(g, color, n).contains(m) <==> (is_legal_move(g, m) && holds(g, m.from, color)
                && m.from.y * 8 + m.from.x < n) by {
            let here = m.from == p && is_legal_move(g, m);
            if g.contains_key(m.from) {
                assert(on_board(m.from));
                assert(m.from.y * 8 + m.from.x == n - 1 <==> m.from == p);
            }
            assert(before.contains(m) <==> (is_legal_move(g, m) && holds(g, m.from, color)
                && m.from.y * 8 + m.from.x < n - 1));
            if holds(g, p, color) {
                assert(legal_moves(g, p).contains(m) <==> here);
                assert(extend_unique(before, legal_moves(g, p)).contains(m) <==> (before.contains(m)
                    || legal_moves(g, p).contains(m)));
            } else {
                assert(moves_upto(g, color, n) == before);
            }
        }
    } else {
        assert forall|m: Movement|
            #![trigger moves_upto(g, color, n).contains(m)]
            moves_upto(g, color, n).contains(m) <==> (is_legal_move(g, m) && holds(g, m.from, color)
                && m.from.y * 8 + m.from.x < n) by {
            assert(!Seq::<Movement>::empty().contains(m));
            if g.contains_key(m.from) {
                assert(on_board(m.from));
            }
        }
    }
}

/// Cells that hold no piece of `color` add nothing to its moves.
pub proof fn lemma_moves_skip(g: Map<Point, Piece>, color: Color, k: nat, n: nat)
    requires
        k <= n <= 64,
        forall|p: Point| #[trigger] holds(g, p, color) ==> !(k <= p.y * 8 + p.x < n),
    ensures
        moves_upto(g, color, n) == moves_upto(g, color, k),
    decreases n - k,
{
    if k < n {
        let p = cell_point(n - 1);
        assert(p.y * 8 + p.x == n - 1);
        assert(!holds(g, p, color));
        lemma_moves_skip(g, color, k, (n - 1) as nat);
    }
}

/// `all_moves` holds, each once, the legal moves of the pieces of `color`.
pub proof fn lemma_all_moves(g: Map<Point, Piece>, color: Color)
    requires
        well_placed(g),
    ensures
        all_moves(g, color).no_duplicates(),
        forall|m: Movement|
            #![trigger all_moves(g, color).contains(m)]
            all_moves(g, color).contains(m) <==> (is_legal_move(g, m) && holds(g, m.from, color)),
{
    lemma_moves_upto(g, color, 64);
    assert forall|m: Movement| is_legal_move(g, m) implies m.from.y * 8 + m.from.x < 64 by {
        assert(on_board(m.from));
    }
}

} // verus!
