//! A game between two players: whose turn it is, what each has captured, and
//! what a move requested by the player to move leads to.

use crate::chessboard::oracle::{
    check, first_onto, has_king, is_checkmate, is_king_of, is_stalemate, lemma_first_onto_found,
};
use crate::chessboard::play::{
    after_move, captured, lemma_legal_is_playable, promotes, rook_target,
};
use crate::chessboard::rules::{
    castle_rook_cell, holds, is_legal_move, legal_moves, occupant, well_placed,
};
use crate::chessboard::{starting_position, Board};
use crate::geomath::{strictly_between, Point};
use crate::types::color::Color;
use crate::types::movement::{Movement, SpecialMove};
use crate::types::moves::listed_moves;
use crate::types::piece::Piece;
use vstd::prelude::*;

verus! {

/// Why a requested move is not made.
#[derive(Clone, Copy, Debug, PartialEq, Eq, Structural)]
pub enum Refusal {
    /// No piece stands on the cell to move from.
    EmptyCell,
    /// The piece on the cell to move from belongs to the other player.
    NotYourPiece,
    /// The piece may not go to the cell to move to, or the move would leave the
    /// player's own king in check.
    InvalidMove,
}

/// What a move of the player to move leads to.
#[derive(Clone, Copy, Debug, PartialEq, Eq, Structural)]
pub enum Verdict {
    /// The move is not made.
    Refused(Refusal),
    /// The move checkmates the player of the given color, who has lost.
    Lost(Color),
    /// The game ends without a winner.
    Tie,
    /// The move is made and the turn passes to the other player.
    Played,
}

/// The letter of the piece that a pawn is to become is not one of `B`, `N`, `R`
/// and `Q`.
#[derive(Clone, Copy, Debug, PartialEq, Eq, Structural)]
pub struct InvalidUpgrade;

/// The letter that a player's answer names among the pieces a pawn can become:
/// the answer is one of the letters `B`, `N`, `R` and `Q`, in either case.
pub open spec fn upgrade_letter(answer: Seq<char>) -> Option<char> {
    if answer.len() != 1 {
        None
    } else if answer[0] == 'B' || answer[0] == 'b' {
        Some('B')
    } else if answer[0] == 'N' || answer[0] == 'n' {
        Some('N')
    } else if answer[0] == 'R' || answer[0] == 'r' {
        Some('R')
    } else if answer[0] == 'Q' || answer[0] == 'q' {
        Some('Q')
    } else {
        None
    }
}

/// Reads the player's answer to the question which piece a pawn is to become,
/// and returns its letter in upper case.
pub fn ask_upgrade(answer: &str) -> (letter: Result<char, InvalidUpgrade>)
    ensures
        letter == match upgrade_letter(answer@) {
            Some(c) => Ok::<char, InvalidUpgrade>(c),
            None => Err::<char, InvalidUpgrade>(InvalidUpgrade),
        },
{
    if answer.unicode_len() != 1 {
        return Err(InvalidUpgrade);
    }
    let c = answer.get_char(0);
    if c == 'B' || c == 'b' {
        Ok('B')
    } else if c == 'N' || c == 'n' {
        Ok('N')
    } else if c == 'R' || c == 'r' {
        Ok('R')
    } else if c == 'Q' || c == 'q' {
        Ok('Q')
    } else {
        Err(InvalidUpgrade)
    }
}

/// The name of the player of the given color.
pub fn p_name(color: Color) -> (name: &'static str)
    ensures
        name@ == (if color == Color::White { "White"@ } else { "Black"@ }),
{
    match color {
        Color::White => "White",
        Color::Black => "Black",
    }
}

/// The count of moves without a capture or a pawn's move, once `mov` is made.
pub open spec fn next_count(g: Map<Point, Piece>, count: u8, mov: Movement) -> u8 {
    if g[mov.from] is Pawn || g.contains_key(mov.to) {
        0
    } else if count < u8::MAX {
        (count + 1) as u8
    } else {
        count
    }
}

/// `total` with `gain` added, as far as the number can hold it.
pub open spec fn credited(total: u32, gain: u8) -> u32 {
    if total + gain <= u32::MAX {
        (total + gain) as u32
    } else {
        u32::MAX
    }
}

/// The piece that takes the place of the one that moves by `mov`: `promoted`
/// if the move is a promotion, none otherwise.
pub open spec fn replacement(
    g: Map<Point, Piece>,
    mov: Movement,
    promoted: Option<Piece>,
) -> Option<Piece> {
    if promotes(g, mov) {
        promoted
    } else {
        None
    }
}

/// Whether the move `mov` of the player `turn` is refused on the board `g`: it
/// would capture a king, or leave the player's own king in check.
pub open spec fn refused(
    g: Map<Point, Piece>,
    turn: Color,
    mov: Movement,
    promoted: Option<Piece>,
) -> bool {
    ||| captured(g, mov) matches Some(Piece::King(_))
    ||| check(after_move(g, mov, replacement(g, mov, promoted)), turn) is Some
}

/// Whether the move `mov` of the player `turn` ends the game on the board `g`
/// whatever the count of the 50-move rule: it checkmates or stalemates the other
/// player, or only two pieces are left before it.
pub open spec fn ends_at_once(
    g: Map<Point, Piece>,
    turn: Color,
    mov: Movement,
    promoted: Option<Piece>,
) -> bool {
    let next = after_move(g, mov, replacement(g, mov, promoted));
    ||| is_checkmate(next, turn.spec_opposite())
    ||| is_stalemate(next, turn.spec_opposite())
    ||| g.dom().len() == 2
}

/// What the move `mov` of the player `turn` leads to on the board `g`, where
/// `count` moves have gone by without a capture or a pawn's move.
pub open spec fn verdict_of(
    g: Map<Point, Piece>,
    turn: Color,
    count: u8,
    mov: Movement,
    promoted: Option<Piece>,
) -> Verdict {
    let next = after_move(g, mov, replacement(g, mov, promoted));
    if refused(g, turn, mov, promoted) {
        Verdict::Refused(Refusal::InvalidMove)
    } else if is_checkmate(next, turn.spec_opposite()) {
        Verdict::Lost(turn.spec_opposite())
    } else if ends_at_once(g, turn, mov, promoted) {
        Verdict::Tie
    } else if next_count(g, count, mov) >= 50 {
        Verdict::Tie
    } else {
        Verdict::Played
    }
}

/// A legal move that replaces no piece but a pawn and captures no king leaves
/// each side that has a king with a king.
pub proof fn lemma_kings_survive(
    g: Map<Point, Piece>,
    mov: Movement,
    promoted: Option<Piece>,
    color: Color,
)
    requires
        well_placed(g),
        is_legal_move(g, mov),
        has_king(g, color),
        !(captured(g, mov) matches Some(Piece::King(_))),
        promoted is Some ==> g[mov.from] is Pawn,
    ensures
        has_king(after_move(g, mov, promoted), color),
{
    let k = choose|p: Point| is_king_of(g, p, color);
    let next = after_move(g, mov, promoted);
    lemma_legal_is_playable(g, mov);
    if k == mov.from {
        assert(is_king_of(next, mov.to, color));
    } else {
        if mov.special == Some(SpecialMove::ShortCastle) {
            assert(strictly_between(
                mov.from,
                castle_rook_cell(mov.from, true),
                rook_target(mov),
            ));
        }
        if mov.special == Some(SpecialMove::LongCastle) {
            assert(strictly_between(
                mov.from,
                castle_rook_cell(mov.from, false),
                rook_target(mov),
            ));
        }
        assert(is_king_of(next, k, color));
    }
}

/// Engine of the game.
#[derive(Debug)]
pub struct Game {
    /// Score of the pieces captured by White.
    pub w_score: u32,
    /// Score of the pieces captured by Black.
    pub b_score: u32,
    /// Count for the 50-move rule.
    pub move_count: u8,
    /// Chessboard.
    pub board: Board,
    /// Turn of the game (White / Black).
    pub turn: Color,
}

impl Game {
    /// Whether the board is well formed and each side has a king on it.
    pub open spec fn wf(&self) -> bool {
        &&& self.board.wf()
        &&& has_king(self.board@, Color::White)
        &&& has_king(self.board@, Color::Black)
    }

    /// The score of the pieces that the player `color` has captured.
    pub open spec fn spec_captured_by(&self, color: Color) -> u32 {
        match color {
            Color::White => self.w_score,
            Color::Black => self.b_score,
        }
    }

    /// The score of the pieces that the player `color` has captured.
    pub fn captured_by(&self, color: Color) -> (score: u32)
        ensures
            score == self.spec_captured_by(color),
    {
        match color {
            Color::White => self.w_score,
            Color::Black => self.b_score,
        }
    }

    /// The score that is shown for the player `color`: what the player has
    /// captured less what the other player has.
    pub fn get_printable_score(&self, color: Color) -> (score: i64)
        ensures
            score == self.spec_captured_by(color) - self.spec_captured_by(color.spec_opposite()),
    {
        match color {
            Color::White => self.w_score as i64 - self.b_score as i64,
            Color::Black => self.b_score as i64 - self.w_score as i64,
        }
    }

    /// Counts `mov`, which is about to be made, for the 50-move rule, and returns
    /// whether the game ends by it: `true` once 50 moves in a row have neither
    /// captured nor moved a pawn.
    pub fn fifty_moves(&mut self, mov: &Movement) -> (over: bool)
        requires
            old(self).board@.contains_key(mov.from),
        ensures
            final(self).move_count == next_count(old(self).board@, old(self).move_count, *mov),
            final(self).board == old(self).board,
            final(self).turn == old(self).turn,
            forall|c: Color| final(self).spec_captured_by(c) == old(self).spec_captured_by(c),
            over == (final(self).move_count >= 50),
    {
        let by_pawn = match self.board.piece_at(mov.from) {
            Some(piece) => piece.is_pawn(),
            None => false,
        };
        if by_pawn || self.board.piece_at(mov.to).is_some() {
            self.move_count = 0;
        } else if self.move_count < u8::MAX {
            self.move_count += 1;
        }
        self.move_count >= 50
    }

    /// Looks up the move of the player to move from `from` to `to`: the first
    /// legal move of the piece on `from` that goes to `to`.
    pub fn find_move(&self, from: Point, to: Point) -> (found: Result<Movement, Refusal>)
        requires
            self.board.wf(),
        ensures
            found == match occupant(self.board@, from) {
                None => Err::<Movement, Refusal>(Refusal::EmptyCell),
                Some(piece) => if piece.spec_color() != self.turn {
                    Err::<Movement, Refusal>(Refusal::NotYourPiece)
                } else {
                    match first_onto(legal_moves(self.board@, from), to) {
                        Some(m) => Ok::<Movement, Refusal>(m),
                        None => Err::<Movement, Refusal>(Refusal::InvalidMove),
                    }
                },
            },
            found matches Ok(m) ==> m.from == from && m.to == to && is_legal_move(self.board@, m)
                && holds(self.board@, from, self.turn),
    {
        let piece = match self.board.piece_at(from) {
            Some(piece) => piece,
            None => { return Err(Refusal::EmptyCell); },
        };
        if piece.color() != self.turn {
            return Err(Refusal::NotYourPiece);
        }
        let moves = listed_moves(&self.board.filtered_move_set(from));
        proof {
            assert(moves@.take(0) =~= Seq::<Movement>::empty());
        }
        let mut i: usize = 0;
        while i < moves.len()
            invariant
                i <= moves.len(),
                moves@ == legal_moves(self.board@, from),
                first_onto(moves@.take(i as int), to) is None,
                forall|m: Movement|
                    #![trigger moves@.contains(m)]
                    moves@.contains(m) <==> (m.from == from && is_legal_move(self.board@, m)),
                holds(self.board@, from, self.turn),
            decreases moves.len() - i,
        {
            proof {
                assert(moves@.take(i as int + 1).drop_last() =~= moves@.take(i as int));
            }
            if moves[i].to == to {
                proof {
                    assert(moves@.take(i as int + 1).last() == moves@[i as int]);
                    lemma_first_onto_found(moves@, to, i as int + 1);
                    assert(moves@.contains(moves@[i as int]));
                }
                return Ok(moves[i]);
            }
            i += 1;
        }
        proof {
            assert(moves@.take(moves.len() as int) =~= moves@);
        }
        Err(Refusal::InvalidMove)
    }

    /// Makes the move `mov` of the player to move, if it may be made and the game
    /// goes on after it. `promoted` takes the place of the pawn if the move is a
    /// promotion. A move that leaves the player's own king in check is refused. A
    /// move that ends the game, by a checkmate or a tie, is not made: the game is
    /// left as it was, but for the count of the 50-move rule, which counts every
    /// move that is neither refused nor ends the game whatever the count.
    pub fn play(&mut self, mov: &Movement, promoted: Option<Piece>) -> (verdict: Verdict)
        requires
            old(self).wf(),
            is_legal_move(old(self).board@, *mov),
            holds(old(self).board@, mov.from, old(self).turn),
        ensures
            verdict == verdict_of(
                old(self).board@,
                old(self).turn,
                old(self).move_count,
                *mov,
                promoted,
            ),
            final(self).wf(),
            verdict is Played ==> {
                &&& final(self).board@ == after_move(
                    old(self).board@,
                    *mov,
                    replacement(old(self).board@, *mov, promoted),
                )
                &&& final(self).turn == old(self).turn.spec_opposite()
                &&& final(self).spec_captured_by(old(self).turn) == match captured(
                    old(self).board@,
                    *mov,
                ) {
                    Some(piece) => credited(
                        old(self).spec_captured_by(old(self).turn),
                        piece.spec_score(),
                    ),
                    None => old(self).spec_captured_by(old(self).turn),
                }
                &&& final(self).spec_captured_by(old(self).turn.spec_opposite()) == old(
                    self,
                ).spec_captured_by(old(self).turn.spec_opposite())
            },
            final(self).move_count == if refused(
                old(self).board@,
                old(self).turn,
                *mov,
                promoted,
            ) || ends_at_once(old(self).board@, old(self).turn, *mov, promoted) {
                old(self).move_count
            } else {
                next_count(old(self).board@, old(self).move_count, *mov)
            },
            !(verdict is Played) ==> {
                &&& final(self).board == old(self).board
                &&& final(self).turn == old(self).turn
                &&& forall|c: Color|
                    final(self).spec_captured_by(c) == old(self).spec_captured_by(c)
            },
    {
        let turn = self.turn;
        let other = turn.opposite();
        let replaced = if self.board.is_promoting(mov) { promoted } else { None };
        let ghost g = self.board@;
        proof {
            lemma_legal_is_playable(g, *mov);
        }
        let is_capture = mov.special == Some(SpecialMove::PawnEat);
        let taken = match self.board.piece_at(mov.to) {
            Some(piece) => Some(piece),
            None => if is_capture {
                self.board.piece_at(Point::new(mov.to.x, mov.to.y - turn.sign()))
            } else {
                None
            },
        };
        match taken {
            Some(Piece::King(_)) => { return Verdict::Refused(Refusal::InvalidMove); },
            _ => {},
        }
        proof {
            assert(taken == captured(g, *mov));
            lemma_kings_survive(g, *mov, replaced, Color::White);
            lemma_kings_survive(g, *mov, replaced, Color::Black);
        }
        let mut probe = self.board.clone();
        probe.relocate(mov, replaced);
        if probe.check(turn).is_some() {
            return Verdict::Refused(Refusal::InvalidMove);
        }
        if probe.checkmate(other) {
            return Verdict::Lost(other);
        }
        if probe.stalemate(other) {
            return Verdict::Tie;
        }
        let pieces = self.board.all_pieces();
        proof {
            pieces@.unique_seq_to_set();
            assert(pieces@.to_set() =~= g.dom());
        }
        if pieces.len() == 2 {
            return Verdict::Tie;
        }
        if self.fifty_moves(mov) {
            return Verdict::Tie;
        }
        match self.board.do_move(mov, replaced) {
            Some((score, _)) => {
                match turn {
                    Color::White => {
                        self.w_score = if self.w_score <= u32::MAX - score as u32 {
                            self.w_score + score as u32
                        } else {
                            u32::MAX
                        };
                    },
                    Color::Black => {
                        self.b_score = if self.b_score <= u32::MAX - score as u32 {
                            self.b_score + score as u32
                        } else {
                            u32::MAX
                        };
                    },
                }
            },
            None => {},
        }
        self.turn = other;
        Verdict::Played
    }
}

impl Default for Game {
    /// A game at its start: the pieces on their cells, nothing captured, White
    /// to move.
    fn default() -> (game: Game)
        ensures
            game.board@ == starting_position(),
            game.turn == Color::White,
            game.move_count == 0,
            forall|c: Color| game.spec_captured_by(c) == 0,
            game.wf(),
    {
        let game = Game {
            w_score: 0,
            b_score: 0,
            move_count: 0,
            board: Board::default(),
            turn: Color::White,
        };
        proof {
            assert(is_king_of(game.board@, Point { x: 4, y: 0 }, Color::White));
            assert(is_king_of(game.board@, Point { x: 4, y: 7 }, Color::Black));
        }
        game
    }
}

} // verus!
