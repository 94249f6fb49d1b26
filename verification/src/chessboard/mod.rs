//! The 8x8 chessboard.

pub mod laws;
pub mod legal;
pub mod oracle;
pub mod play;
pub mod rules;

use crate::geomath::{on_board, Point};
use crate::types::color::Color;
use crate::types::piece::pawn::Pawn;
use crate::types::piece::{placement, spec_placement, PawnState, Piece};
use crate::unique::{lemma_push_holds, lemma_push_unique};
use rules::{holds, occupant, well_placed};
use std::ops::Index;
use vstd::prelude::*;

verus! {

/// A cell of the board: empty, or the piece that stands on it.
pub type Square = Option<Piece>;

/// A rank of the board: its eight cells, from the file `a` on.
pub type Row = [Square; 8];

/// An 8x8 board. Each cell holds at most one piece, and a piece on a cell of the
/// board knows that cell as its position.
#[derive(Debug, PartialEq, Eq)]
pub struct Board {
    cells: [Square; 64],
}

/// The pieces at the start of a game, each on its cell.
pub open spec fn starting_position() -> Map<Point, Piece> {
    Map::new(
        |p: Point| on_board(p) && (p.y <= 1 || p.y >= 6),
        |p: Point|
            {
                let color = if p.y <= 1 { Color::White } else { Color::Black };
                if p.y == 1 || p.y == 6 {
                    Piece::Pawn(Pawn { color, pos: p, state: PawnState::NotYet })
                } else {
                    spec_placement(p.x, color)->0
                }
            },
    )
}

impl View for Board {
    type V = Map<Point, Piece>;

    /// The contents of the board: the occupied cells, each with its piece.
    closed spec fn view(&self) -> Map<Point, Piece> {
        Map::new(
            |p: Point| on_board(p) && self.cells@[p.y * 8 + p.x] is Some,
            |p: Point| self.cells@[p.y * 8 + p.x]->0,
        )
    }
}

impl Board {
    /// Number of ranks and of files.
    pub const SIZE: usize = 8;

    /// Whether each piece of the board knows the cell it stands on.
    pub open spec fn wf(&self) -> bool {
        well_placed(self@)
    }

    /// Only a cell of the board holds a piece.
    pub proof fn lemma_cells_on_board(&self, p: Point)
        ensures
            self@.contains_key(p) ==> on_board(p),
    {
    }

    /// Constructor of `Board` with every cell empty.
    pub fn empty() -> (board: Board)
        ensures
            board@ == Map::<Point, Piece>::empty(),
            board.wf(),
    {
        let board = Board { cells: [None; 64] };
        assert(board@ =~= Map::<Point, Piece>::empty());
        board
    }

    /// Checks if a `Point` is inside the board.
    pub fn in_bounds(point: Point) -> (inside: bool)
        ensures
            inside == on_board(point),
    {
        point.x < 8 && point.y < 8 && point.x >= 0 && point.y >= 0
    }

    /// Returns the cell at `point`, or `None` if `point` is not inside the board.
    pub fn get(&self, point: Point) -> (square: Option<&Square>)
        ensures
            on_board(point) ==> square is Some && *square->0 == occupant(self@, point),
            !on_board(point) ==> square is None,
    {
        if Board::in_bounds(point) {
            Some(&self.cells[(point.y * 8 + point.x) as usize])
        } else {
            None
        }
    }

    /// Returns what stands at `point`: nothing if `point` is not inside the board.
    pub fn piece_at(&self, point: Point) -> (square: Square)
        ensures
            square == occupant(self@, point),
    {
        if Board::in_bounds(point) {
            self.cells[(point.y * 8 + point.x) as usize]
        } else {
            None
        }
    }

    /// Makes `square` the content of the cell at `point`. A piece that is put
    /// there takes the cell as its position.
    pub fn put(&mut self, point: Point, square: Square)
        requires
            on_board(point),
        ensures
            final(self)@ == match square {
                Some(piece) => old(self)@.insert(point, piece.spec_placed_at(point)),
                None => old(self)@.remove(point),
            },
            old(self).wf() ==> final(self).wf(),
    {
        let placed = match square {
            Some(piece) => Some(piece.placed_at(point)),
            None => None,
        };
        self.cells[(point.y * 8 + point.x) as usize] = placed;
        proof {
            let target = match square {
                Some(piece) => old(self)@.insert(point, piece.spec_placed_at(point)),
                None => old(self)@.remove(point),
            };
            assert forall|p: Point| on_board(p) && p != point implies p.y * 8 + p.x != point.y * 8
                + point.x by {}
            assert(self@ =~= target);
        }
    }

    /// Returns the ranks of the board, from the first on.
    pub fn iter(&self) -> (rows: Vec<Row>)
        ensures
            rows@.len() == 8,
            forall|x: int, y: int|
                0 <= x < 8 && 0 <= y < 8 ==> (#[trigger] rows@[y]@[x]) == occupant(
                    self@,
                    Point { x: x as isize, y: y as isize },
                ),
    {
        let mut rows: Vec<Row> = Vec::new();
        let mut y: usize = 0;
        while y < 8
            invariant
                y <= 8,
                rows@.len() == y,
                forall|x: int, z: int|
                    0 <= x < 8 && 0 <= z < y ==> (#[trigger] rows@[z]@[x]) == occupant(
                        self@,
                        Point { x: x as isize, y: z as isize },
                    ),
            decreases 8 - y,
        {
            let mut row: Row = [None; 8];
            let mut x: usize = 0;
            while x < 8
                invariant
                    x <= 8,
                    y < 8,
                    forall|w: int|
                        0 <= w < x ==> (#[trigger] row@[w]) == occupant(
                            self@,
                            Point { x: w as isize, y: y as isize },
                        ),
                decreases 8 - x,
            {
                row[x] = self.cells[y * 8 + x];
                x += 1;
            }
            rows.push(row);
            y += 1;
        }
        rows
    }

    /// Coordinates of all the pieces on the board, cell after cell: along the
    /// first rank from the file `a` on, then along the second, and so on.
    pub fn all_pieces(&self) -> (cells: Vec<Point>)
        ensures
            cells@.no_duplicates(),
            forall|p: Point| cells@.contains(p) <==> self@.contains_key(p),
            forall|i: int, j: int|
                0 <= i < j < cells@.len() ==> cells@[i].y * 8 + cells@[i].x < cells@[j].y * 8
                    + cells@[j].x,
    {
        let mut cells: Vec<Point> = Vec::new();
        let mut n: usize = 0;
        while n < 64
            invariant
                n <= 64,
                cells@.no_duplicates(),
                forall|p: Point|
                    cells@.contains(p) <==> (self@.contains_key(p) && p.y * 8 + p.x < n),
                forall|i: int, j: int|
                    0 <= i < j < cells@.len() ==> cells@[i].y * 8 + cells@[i].x < cells@[j].y * 8
                        + cells@[j].x,
                forall|i: int| 0 <= i < cells@.len() ==> cells@[i].y * 8 + cells@[i].x < n,
            decreases 64 - n,
        {
            let p = Point::new((n % 8) as isize, (n / 8) as isize);
            if self.cells[n].is_some() {
                proof {
                    let before = cells@;
                    assert forall|q: Point|
                        before.push(p).contains(q) <==> (self@.contains_key(q) && q.y * 8 + q.x < n
                            + 1) by {
                        lemma_push_holds(before, p, q);
                    }
                    lemma_push_unique(before, p);
                }
                cells.push(p);
            } else {
                assert(!self@.contains_key(p));
            }
            n += 1;
        }
        cells
    }
}

impl Board {
    /// Coordinates of all the pieces of the side `color` on the board, cell after
    /// cell.
    pub fn all_color_pieces(&self, color: Color) -> (cells: Vec<Point>)
        ensures
            cells@.no_duplicates(),
            forall|p: Point| cells@.contains(p) <==> holds(self@, p, color),
            forall|i: int, j: int|
                0 <= i < j < cells@.len() ==> cells@[i].y * 8 + cells@[i].x < cells@[j].y * 8
                    + cells@[j].x,
    {
        let all = self.all_pieces();
        let mut cells: Vec<Point> = Vec::new();
        let mut n: usize = 0;
        while n < all.len()
            invariant
                n <= all.len(),
                all@.no_duplicates(),
                forall|p: Point| all@.contains(p) <==> self@.contains_key(p),
                forall|i: int, j: int|
                    0 <= i < j < all@.len() ==> all@[i].y * 8 + all@[i].x < all@[j].y * 8
                        + all@[j].x,
                cells@.no_duplicates(),
                forall|p: Point|
                    cells@.contains(p) <==> (holds(self@, p, color) && all@.take(n as int).contains(
                        p,
                    )),
                forall|i: int, j: int|
                    0 <= i < j < cells@.len() ==> cells@[i].y * 8 + cells@[i].x < cells@[j].y * 8
                        + cells@[j].x,
                forall|i: int, j: int|
                    0 <= i < cells@.len() && n <= j < all@.len() ==> cells@[i].y * 8 + cells@[i].x
                        < all@[j].y * 8 + all@[j].x,
            decreases all.len() - n,
        {
            let p = all[n];
            assert(all@.contains(p));
            let ghost before = cells@;
            let ghost seen = all@.take(n as int);
            let of_color = match self.piece_at(p) {
                Some(piece) => piece.color() == color,
                None => false,
            };
            if of_color {
                cells.push(p);
            }
            proof {
                assert(seen.push(p) =~= all@.take(n as int + 1));
                assert forall|q: Point|
                    cells@.contains(q) <==> (holds(self@, q, color) && all@.take(
                        n as int + 1,
                    ).contains(q)) by {
                    lemma_push_holds(seen, p, q);
                    lemma_push_holds(before, p, q);
                }
                if before.contains(p) {
                    let j = choose|j: int| 0 <= j < n && seen[j] == p;
                    assert(all@[j] == all@[n as int]);
                }
                lemma_push_unique(before, p);
            }
            n += 1;
        }
        proof {
            assert(all@.take(all.len() as int) =~= all@);
        }
        cells
    }
}

impl Index<Point> for Board {
    type Output = Square;

    /// The cell at `index`, which must be inside the board.
    fn index(&self, index: Point) -> (square: &Square)
        ensures
            *square == occupant(self@, index),
    {
        &self.cells[(index.y * 8 + index.x) as usize]
    }
}

impl vstd::std_specs::core::IndexSpecImpl<Point> for Board {
    open spec fn index_req(&self, index: &Point) -> bool {
        on_board(*index)
    }
}

impl Clone for Board {
    /// A board of its own with the same piece on every cell.
    fn clone(&self) -> (copy: Board)
        ensures
            copy == *self,
    {
        Board { cells: self.cells }
    }
}

impl Default for Board {
    /// The board at the start of a game.
    fn default() -> (board: Board)
        ensures
            board@ == starting_position(),
            board.wf(),
    {
        let mut board = Board::empty();
        let mut x: isize = 0;
        while x < 8
            invariant
                0 <= x <= 8,
                board.wf(),
                board@ == starting_position().restrict(Set::new(|p: Point| p.x < x)),
            decreases 8 - x,
        {
            let ghost before = board@;
            let white = Point::new(x, 1);
            let black = Point::new(x, 6);
            board.put(white, Some(Piece::Pawn(Pawn::new(Color::White, white))));
            board.put(black, Some(Piece::Pawn(Pawn::new(Color::Black, black))));
            board.put(Point::new(x, 0), placement(x, Color::White));
            board.put(Point::new(x, 7), placement(x, Color::Black));
            proof {
                assert(board@ =~= starting_position().restrict(Set::new(|p: Point| p.x < x + 1)));
            }
            x += 1;
        }
        proof {
            assert(board@ =~= starting_position());
        }
        board
    }
}

} // verus!
