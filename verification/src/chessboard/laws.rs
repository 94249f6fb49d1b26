//! What follows from the rules: how rays stop, when a pawn may advance by two
//! cells or capture en passant, when a king may castle, and that a move does to
//! two equal boards the same.

use super::oracle::{in_check, is_checkmate, is_stalemate, lemma_check};
use super::play::{after_move, cell_behind, playable};
use super::rules::{
    all_moves, attacked, castle_ok, castle_rook_cell, castle_transit_cell, holds, is_legal,
    is_legal_move, legal_moves, legal_pred, lemma_all_moves, lemma_legal_moves, path_clear,
    well_placed,
};
use super::Board;
use crate::geomath::rotation::Direction;
use crate::geomath::{chebyshev, on_board, strictly_between, Point};
use crate::types::color::Color;
use crate::types::movement::{Movement, SpecialMove};
use crate::types::piece::pawn::Pawn;
use crate::types::piece::rook::Rook;
use crate::types::piece::{PawnState, Piece, PieceState};
use crate::unique::lemma_filter_all;
use vstd::prelude::*;

verus! {

/// Whether the piece slides: a rook, a bishop or a queen.
pub open spec fn is_slider(piece: Piece) -> bool {
    piece is Rook || piece is Bishop || piece is Queen
}

/// Every candidate of a piece, wherever the piece stands, ends on the board.
pub proof fn lemma_candidates_on_board(piece: Piece, m: Movement)
    requires
        piece.spec_move_set().contains(m),
    ensures
        on_board(m.to),
        m.from == piece.spec_pos(),
{
    piece.lemma_move_set();
}

/// Whether a candidate of `mover` in the direction of `m`, and nearer than `m`,
/// ends on an occupied cell.
pub open spec fn ray_blocked(g: Map<Point, Piece>, mover: Piece, m: Movement) -> bool {
    exists|near: Movement|
        #[trigger] mover.reaches(near) && near.direction == m.direction && g.contains_key(near.to)
            && chebyshev(near.to.x - near.from.x, near.to.y - near.from.y) < chebyshev(
            m.to.x - m.from.x,
            m.to.y - m.from.y,
        )
}

/// Walking a ray stops at the first piece: for a candidate that has a direction,
/// every cell between its two ends is empty exactly when no nearer candidate of
/// the piece in that direction ends on an occupied cell.
pub proof fn lemma_ray_walk(g: Map<Point, Piece>, m: Movement)
    requires
        well_placed(g),
        g.contains_key(m.from),
        g[m.from].reaches(m),
        m.direction is Some,
    ensures
        path_clear(g, m.from, m.to) <==> !ray_blocked(g, g[m.from], m),
{
    let mover = g[m.from];
    if !path_clear(g, m.from, m.to) {
        let s = choose|s: Point| strictly_between(m.from, m.to, s) && g.contains_key(s);
        assert(strictly_between(m.from, m.to, s) && g.contains_key(s));
        assert(on_board(s));
        let special = match mover {
            Piece::Pawn(_) => Some(SpecialMove::CannotEat),
            _ => None,
        };
        let near = Movement { from: m.from, to: s, special, direction: m.direction };
        assert(mover.reaches(near));
    }
    if ray_blocked(g, mover, m) {
        let near = choose|near: Movement|
            #[trigger] mover.reaches(near) && near.direction == m.direction && g.contains_key(
                near.to,
            ) && chebyshev(near.to.x - near.from.x, near.to.y - near.from.y) < chebyshev(
                m.to.x - m.from.x,
                m.to.y - m.from.y,
            );
        assert(strictly_between(m.from, m.to, near.to));
    }
}

/// A rook alone on the board may make every move of its move set: the filter
/// lets each candidate through, in its place.
pub proof fn lemma_lone_rook(rook: Rook)
    requires
        on_board(rook.pos),
    ensures
        legal_moves(Map::<Point, Piece>::empty().insert(rook.pos, Piece::Rook(rook)), rook.pos)
            == rook.spec_move_set(),
{
    let g = Map::<Point, Piece>::empty().insert(rook.pos, Piece::Rook(rook));
    let candidates = rook.spec_move_set();
    rook.lemma_move_set();
    assert forall|i: int| 0 <= i < candidates.len() implies legal_pred(g, Piece::Rook(rook))(
        #[trigger] candidates[i],
    ) by {
        let m = candidates[i];
        assert(candidates.contains(m));
        assert(rook.reaches(m));
        assert(is_legal(g, Piece::Rook(rook), m));
    }
    lemma_filter_all(candidates, legal_pred(g, Piece::Rook(rook)));
}

/// A piece of the other side on a ray of a rook, a bishop or a queen hides every
/// cell behind it, and can be captured if nothing stands before it: any
/// candidate `far` that would pass over it is not legal, and the candidate `near`
/// that ends on it is legal if the cells before it are empty.
pub proof fn lemma_ray_stops_at_enemy(g: Map<Point, Piece>, near: Movement, far: Movement)
    requires
        well_placed(g),
        g.contains_key(near.from),
        is_slider(g[near.from]),
        g[near.from].reaches(near),
        g[near.from].reaches(far),
        holds(g, near.to, g[near.from].spec_color().spec_opposite()),
        strictly_between(near.from, far.to, near.to),
    ensures
        path_clear(g, near.from, near.to) ==> legal_moves(g, near.from).contains(near),
        !legal_moves(g, near.from).contains(far),
{
    lemma_legal_moves(g, near.from);
}

/// A piece of the same side on a ray of a rook, a bishop or a queen cannot be
/// captured, and hides every cell behind it: neither the candidate `near` that
/// ends on it nor any candidate `far` that would pass over it is legal.
pub proof fn lemma_ray_stops_before_friend(g: Map<Point, Piece>, near: Movement, far: Movement)
    requires
        well_placed(g),
        g.contains_key(near.from),
        is_slider(g[near.from]),
        g[near.from].reaches(near),
        g[near.from].reaches(far),
        holds(g, near.to, g[near.from].spec_color()),
        strictly_between(near.from, far.to, near.to),
    ensures
        !legal_moves(g, near.from).contains(near),
        !legal_moves(g, near.from).contains(far),
{
    lemma_legal_moves(g, near.from);
}

/// A pawn on its home cell that has never advanced by two cells, with the two
/// cells ahead of it empty, has among its legal moves exactly one step straight
/// ahead and exactly one advance by two cells.
pub proof fn lemma_pawn_first_moves(g: Map<Point, Piece>, pawn: Pawn)
    requires
        well_placed(g),
        g.contains_key(pawn.pos),
        g[pawn.pos] == Piece::Pawn(pawn),
        pawn.state == PawnState::NotYet,
        pawn.pos.y == pawn.color.spec_second_row(),
        !g.contains_key(Point { x: pawn.pos.x, y: (pawn.pos.y + pawn.color.spec_sign()) as isize }),
        !g.contains_key(
            Point { x: pawn.pos.x, y: (pawn.pos.y + 2 * pawn.color.spec_sign()) as isize },
        ),
    ensures
        forall|m: Movement|
            #![trigger legal_moves(g, pawn.pos).contains(m)]
            legal_moves(g, pawn.pos).contains(m) && m.special == Some(SpecialMove::CannotEat)
                <==> m == (Movement {
                from: pawn.pos,
                to: Point { x: pawn.pos.x, y: (pawn.pos.y + pawn.color.spec_sign()) as isize },
                special: Some(SpecialMove::CannotEat),
                direction: Some(Direction::Up),
            }),
        forall|m: Movement|
            #![trigger legal_moves(g, pawn.pos).contains(m)]
            legal_moves(g, pawn.pos).contains(m) && m.special == Some(SpecialMove::DoublePawn)
                <==> m == (Movement {
                from: pawn.pos,
                to: Point { x: pawn.pos.x, y: (pawn.pos.y + 2 * pawn.color.spec_sign()) as isize },
                special: Some(SpecialMove::DoublePawn),
                direction: Some(Direction::Up),
            }),
{
    lemma_legal_moves(g, pawn.pos);
    let one = Point { x: pawn.pos.x, y: (pawn.pos.y + pawn.color.spec_sign()) as isize };
    let two = Point { x: pawn.pos.x, y: (pawn.pos.y + 2 * pawn.color.spec_sign()) as isize };
    assert(strictly_between(pawn.pos, two, one));
    assert forall|s: Point| strictly_between(pawn.pos, two, s) implies s == one by {}
    assert forall|s: Point| !strictly_between(pawn.pos, one, s) by {}
}

/// A pawn that has advanced by two cells, just now or before, never does so
/// again: no legal move of it is an advance by two cells.
pub proof fn lemma_pawn_advances_once(g: Map<Point, Piece>, pawn: Pawn, m: Movement)
    requires
        well_placed(g),
        g.contains_key(pawn.pos),
        g[pawn.pos] == Piece::Pawn(pawn),
        pawn.state != PawnState::NotYet,
        legal_moves(g, pawn.pos).contains(m),
    ensures
        m.special != Some(SpecialMove::DoublePawn),
{
    lemma_legal_moves(g, pawn.pos);
}

/// A pawn's capture towards an empty cell is legal exactly as a capture en
/// passant: while a pawn of the other side that has just advanced by two cells
/// stands right behind that cell. Once that pawn has done so already, or if
/// anything else or nothing stands there, the capture is not legal.
pub proof fn lemma_en_passant_window(g: Map<Point, Piece>, pawn: Pawn, m: Movement)
    requires
        well_placed(g),
        g.contains_key(pawn.pos),
        g[pawn.pos] == Piece::Pawn(pawn),
        pawn.reaches(m),
        m.special == Some(SpecialMove::PawnEat),
        !g.contains_key(m.to),
    ensures
        legal_moves(g, pawn.pos).contains(m) <==> {
            &&& g.contains_key(cell_behind(m, pawn.color))
            &&& g[cell_behind(m, pawn.color)] matches Piece::Pawn(other)
            &&& other.color != pawn.color
            &&& other.state == PawnState::JustDouble
        },
{
    lemma_legal_moves(g, pawn.pos);
    assert forall|s: Point| !strictly_between(m.from, m.to, s) by {}
}

/// The window for a capture en passant lasts one ply: after a move of the side
/// `color`, the only pawn of that side that can have just advanced by two cells is
/// the piece that has just moved.
pub proof fn lemma_window_closes(
    g: Map<Point, Piece>,
    m: Movement,
    promoted: Option<Piece>,
    p: Point,
)
    requires
        well_placed(g),
        playable(g, m),
        after_move(g, m, promoted).contains_key(p),
        after_move(g, m, promoted)[p] matches Piece::Pawn(pawn) && pawn.color
            == g[m.from].spec_color() && pawn.state == PawnState::JustDouble,
    ensures
        p == m.to,
{
}

/// A king may castle exactly when neither it nor the rook of its side on the
/// rook's cell has moved, every cell between the two is empty, and the other side
/// attacks none of the cells the king starts from, passes and arrives at.
pub proof fn lemma_castle(g: Map<Point, Piece>, m: Movement, short: bool)
    requires
        well_placed(g),
        g.contains_key(m.from),
        g[m.from] is King,
        g[m.from].reaches(m),
        m.special == Some(if short { SpecialMove::ShortCastle } else { SpecialMove::LongCastle }),
    ensures
        legal_moves(g, m.from).contains(m) <==> {
            let rook_cell = castle_rook_cell(m.from, short);
            let enemy = g[m.from].spec_color().spec_opposite();
            &&& g[m.from]->King_0.state == PieceState::NotYet
            &&& g.contains_key(rook_cell)
            &&& g[rook_cell] matches Piece::Rook(rook)
            &&& rook.state == PieceState::NotYet
            &&& rook.color == g[m.from].spec_color()
            &&& path_clear(g, m.from, rook_cell)
            &&& !attacked(g, m.from, enemy)
            &&& !attacked(g, castle_transit_cell(m.from, short), enemy)
            &&& !attacked(g, m.to, enemy)
        },
{
    lemma_legal_moves(g, m.from);
    let rook_cell = castle_rook_cell(m.from, short);
    if castle_ok(g, g[m.from], m, short) {
        assert(strictly_between(m.from, rook_cell, m.to));
        assert forall|s: Point| strictly_between(m.from, m.to, s) implies !g.contains_key(s) by {
            assert(strictly_between(m.from, rook_cell, s));
        }
    }
}

/// Without a move of the other side onto the cell of its king, a side is not
/// checkmated; with a legal move of its own, it is not stalemated.
pub proof fn lemma_no_mate_without_cause(g: Map<Point, Piece>, color: Color, m: Movement)
    requires
        well_placed(g),
    ensures
        !in_check(g, color) ==> !is_checkmate(g, color),
        is_legal_move(g, m) && holds(g, m.from, color) ==> !is_stalemate(g, color),
{
    lemma_check(g, color);
    lemma_all_moves(g, color);
    if is_legal_move(g, m) && holds(g, m.from, color) {
        assert(all_moves(g, color).contains(m));
    }
}

/// A move does the same to two boards that hold the same: replayed on a copy of
/// a board, it leaves the copy equal to the board it was taken from.
pub proof fn lemma_replay(a: Board, b: Board, m: Movement, promoted: Option<Piece>)
    requires
        a@ == b@,
    ensures
        after_move(a@, m, promoted) == after_move(b@, m, promoted),
{
}

} // verus!
