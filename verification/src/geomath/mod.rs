//! Integer points of the plane, which double as displacement vectors.

pub mod rotation;

use crate::unique::{extend_unique, lemma_extend_unique, lemma_unique, unique};
use rotation::{direction_of, Direction};
use std::ops::{Add, AddAssign, Mul, Neg, Sub};
use vstd::prelude::*;
use vstd::std_specs::convert::{FromSpecImpl, TryFromSpecImpl};
use vstd::std_specs::ops::{AddSpecImpl, MulSpecImpl, NegSpecImpl, SubSpecImpl};

verus! {

/// A point (and also a vector) in a 2D space.
#[derive(Clone, Copy, Debug, PartialEq, Eq, Structural, Hash)]
pub struct Point {
    /// x coordinate: the file, counted from 0.
    pub x: isize,
    /// y coordinate: the rank, counted from 0.
    pub y: isize,
}

/// Why a text is not a coordinate.
#[derive(Clone, Copy, Debug, PartialEq, Eq, Structural)]
pub enum ParsePointError {
    /// The text does not have exactly two characters.
    InvalidLength,
    /// The first character is no file letter, or the second no rank digit, of the board.
    InvalidCoords,
}

impl ParsePointError {
    /// A few words that say what is wrong with the text.
    pub fn message(&self) -> (text: &'static str)
        ensures
            text@ == match self {
                ParsePointError::InvalidLength => "invalid length"@,
                ParsePointError::InvalidCoords => "invalid coords"@,
            },
    {
        match self {
            ParsePointError::InvalidLength => "invalid length",
            ParsePointError::InvalidCoords => "invalid coords",
        }
    }
}

/// The file that the letter `c` names, in either case: `A` is 0.
pub open spec fn file_of(c: char) -> Option<int> {
    if 'a' <= c <= 'h' {
        Some(c as int - 'a' as int)
    } else if 'A' <= c <= 'H' {
        Some(c as int - 'A' as int)
    } else {
        None
    }
}

/// The rank that the digit `c` names: `1` is 0.
pub open spec fn rank_of(c: char) -> Option<int> {
    if '1' <= c <= '8' {
        Some(c as int - '1' as int)
    } else {
        None
    }
}

/// What a coordinate text such as `e4` stands for: a file letter `A` to `H` in either
/// case, then a rank digit `1` to `8`, and nothing else.
pub open spec fn parse_point(s: Seq<char>) -> Result<Point, ParsePointError> {
    if s.len() != 2 {
        Err(ParsePointError::InvalidLength)
    } else {
        match (file_of(s[0]), rank_of(s[1])) {
            (Some(x), Some(y)) => Ok(Point { x: x as isize, y: y as isize }),
            _ => Err(ParsePointError::InvalidCoords),
        }
    }
}

impl Point {
    /// Constructor of `Point`.
    pub fn new(x: isize, y: isize) -> (p: Self)
        ensures
            p == (Point { x, y }),
    {
        Point { x, y }
    }

    /// The eight images of `self` under the symmetries of the square, in the order
    /// in which `rotations` visits them.
    pub open spec fn images(self) -> Seq<Point> {
        seq![
            Point { x: self.x, y: self.y },
            Point { x: (-self.x) as isize, y: self.y },
            Point { x: (-self.x) as isize, y: (-self.y) as isize },
            Point { x: self.x, y: (-self.y) as isize },
            Point { x: self.y, y: self.x },
            Point { x: self.y, y: (-self.x) as isize },
            Point { x: (-self.y) as isize, y: (-self.x) as isize },
            Point { x: (-self.y) as isize, y: self.x },
        ]
    }

    /// Whether `p` is `self` reflected or rotated: the same two magnitudes, in
    /// either order, under any signs.
    pub open spec fn is_image(self, p: Point) -> bool {
        ||| (p.x == self.x || p.x == -self.x) && (p.y == self.y || p.y == -self.y)
        ||| (p.x == self.y || p.x == -self.y) && (p.y == self.x || p.y == -self.x)
    }

    /// The images of `self`, each once and with its direction.
    pub open spec fn spec_rotations(self) -> Seq<(Point, Option<Direction>)> {
        unique(self.images().map_values(|p: Point| (p, direction_of(p))))
    }

    /// The cells at distance `offset` on the eight lines through the origin.
    pub open spec fn spec_all_around(offset: isize) -> Seq<(Point, Option<Direction>)> {
        extend_unique(
            Point { x: offset, y: offset }.spec_rotations(),
            Point { x: offset, y: 0 }.spec_rotations(),
        )
    }

    /// The reflections and rotations of `self`, each once, paired with the
    /// direction it points in (none for a knight's jump or the zero vector).
    pub fn rotations(self) -> (v: Vec<(Point, Option<Direction>)>)
        requires
            self.x > isize::MIN,
            self.y > isize::MIN,
        ensures
            v@ == self.spec_rotations(),
            v@.no_duplicates(),
            forall|p: Point, d: Option<Direction>|
                v@.contains((p, d)) <==> self.is_image(p) && d == direction_of(p),
    {
        let Point { x, y } = self;
        let all: [Point; 8] = [
            Point { x, y },
            Point { x: -x, y },
            Point { x: -x, y: -y },
            Point { x, y: -y },
            Point { x: y, y: x },
            Point { x: y, y: -x },
            Point { x: -y, y: -x },
            Point { x: -y, y: x },
        ];
        let ghost paired = self.images().map_values(|p: Point| (p, direction_of(p)));
        assert(all@ =~= self.images());
        let mut v: Vec<(Point, Option<Direction>)> = Vec::new();
        let mut i: usize = 0;
        while i < 8
            invariant
                i <= 8,
                all@ == self.images(),
                paired == self.images().map_values(|p: Point| (p, direction_of(p))),
                v@ == unique(paired.take(i as int)),
            decreases 8 - i,
        {
            let p = all[i];
            let d: Option<Direction> = From::from(p);
            proof {
                assert(paired.take(i as int + 1).drop_last() =~= paired.take(i as int));
                assert(paired.take(i as int + 1).last() == (p, d));
            }
            if !holds_pair(&v, p, d) {
                v.push((p, d));
            }
            i += 1;
        }
        proof {
            assert(paired.take(8) =~= paired);
            lemma_rotations(self);
        }
        v
    }

    /// Returns all the cells on the border of the square of side
    /// `2 * offset + 1` around the origin that lie on a line through it.
    #[verifier::loop_isolation(false)]
    pub fn all_around(offset: isize) -> (v: Vec<(Point, Option<Direction>)>)
        requires
            offset > isize::MIN,
        ensures
            v@ == Point::spec_all_around(offset),
            v@.no_duplicates(),
            forall|p: Point, d: Option<Direction>|
                v@.contains((p, d)) <==> d == direction_of(p) && (Point {
                    x: offset,
                    y: offset,
                }.is_image(p) || Point { x: offset, y: 0 }.is_image(p)),
    {
        let mut v = Point::new(offset, offset).rotations();
        let straight = Point::new(offset, 0).rotations();
        let ghost diagonal = v@;
        let mut i: usize = 0;
        while i < straight.len()
            invariant
                i <= straight.len(),
                v@ == extend_unique(diagonal, straight@.take(i as int)),
            decreases straight.len() - i,
        {
            let (p, d) = straight[i];
            proof {
                assert(straight@.take(i as int + 1).drop_last() =~= straight@.take(i as int));
                assert(straight@.take(i as int + 1).last() == (p, d));
            }
            if !holds_pair(&v, p, d) {
                v.push((p, d));
            }
            i += 1;
        }
        proof {
            assert(straight@.take(straight.len() as int) =~= straight@);
            lemma_extend_unique(diagonal, straight@);
            assert forall|p: Point, d: Option<Direction>|
                v@.contains((p, d)) <==> d == direction_of(p) && (Point {
                    x: offset,
                    y: offset,
                }.is_image(p) || Point { x: offset, y: 0 }.is_image(p)) by {
                assert(v@.contains((p, d)) <==> diagonal.contains((p, d)) || straight@.contains(
                    (p, d),
                ));
            }
        }
        v
    }
}

/// `spec_rotations` lists each image of `v` once, with its direction, and nothing else.
pub proof fn lemma_rotations(v: Point)
    requires
        v.x > isize::MIN,
        v.y > isize::MIN,
    ensures
        v.spec_rotations().no_duplicates(),
        forall|p: Point, d: Option<Direction>|
            v.spec_rotations().contains((p, d)) <==> v.is_image(p) && d == direction_of(p),
{
    let paired = v.images().map_values(|p: Point| (p, direction_of(p)));
    lemma_unique(paired);
    assert forall|p: Point, d: Option<Direction>|
        v.spec_rotations().contains((p, d)) <==> v.is_image(p) && d == direction_of(p) by {
        if v.is_image(p) && d == direction_of(p) {
            let k = choose|k: int| 0 <= k < 8 && v.images()[k] == p;
            assert(paired[k] == (p, d));
        }
        if paired.contains((p, d)) {
            let k = choose|k: int| 0 <= k < 8 && paired[k] == (p, d);
            assert(v.images()[k] == p);
        }
    }
}

/// `spec_all_around` lists, each once and with its direction, the images of the
/// diagonal and of the straight offset.
pub proof fn lemma_all_around(offset: isize)
    requires
        offset > isize::MIN,
    ensures
        Point::spec_all_around(offset).no_duplicates(),
        forall|p: Point, d: Option<Direction>|
            Point::spec_all_around(offset).contains((p, d)) <==> d == direction_of(p) && (Point {
                x: offset,
                y: offset,
            }.is_image(p) || Point { x: offset, y: 0 }.is_image(p)),
{
    let diagonal = Point { x: offset, y: offset }.spec_rotations();
    let straight = Point { x: offset, y: 0 }.spec_rotations();
    lemma_rotations(Point { x: offset, y: offset });
    lemma_rotations(Point { x: offset, y: 0 });
    lemma_extend_unique(diagonal, straight);
    assert forall|p: Point, d: Option<Direction>|
        Point::spec_all_around(offset).contains((p, d)) <==> d == direction_of(p) && (Point {
            x: offset,
            y: offset,
        }.is_image(p) || Point { x: offset, y: 0 }.is_image(p)) by {
        assert(Point::spec_all_around(offset).contains((p, d)) <==> diagonal.contains((p, d))
            || straight.contains((p, d)));
    }
}

/// Whether `p` is a cell of the board: both coordinates from 0 to 7.
pub open spec fn on_board(p: Point) -> bool {
    0 <= p.x < 8 && 0 <= p.y < 8
}

/// The sign of `v`: -1, 0 or 1.
pub open spec fn signum(v: int) -> int {
    if v < 0 {
        -1
    } else if v == 0 {
        0
    } else {
        1
    }
}

/// The magnitude of `v`.
pub open spec fn magnitude(v: int) -> int {
    if v < 0 {
        -v
    } else {
        v
    }
}

/// Whether the displacement `(dx, dy)` runs along a rank, a file or a diagonal.
pub open spec fn is_linear(dx: int, dy: int) -> bool {
    dx == 0 || dy == 0 || magnitude(dx) == magnitude(dy)
}

/// The number of king's steps that the displacement `(dx, dy)` takes.
pub open spec fn chebyshev(dx: int, dy: int) -> int {
    if magnitude(dx) >= magnitude(dy) {
        magnitude(dx)
    } else {
        magnitude(dy)
    }
}

/// Whether `s` lies on the rank, file or diagonal that joins `a` and `b`, strictly
/// between the two. No cell lies between two cells that share no such line.
pub open spec fn strictly_between(a: Point, b: Point, s: Point) -> bool {
    let dx = b.x - a.x;
    let dy = b.y - a.y;
    let ex = s.x - a.x;
    let ey = s.y - a.y;
    &&& is_linear(dx, dy)
    &&& is_linear(ex, ey)
    &&& signum(ex) == signum(dx)
    &&& signum(ey) == signum(dy)
    &&& 0 < chebyshev(ex, ey) < chebyshev(dx, dy)
}

/// Returns whether `s` lies strictly between `a` and `b` on a common line.
pub fn lies_between(a: Point, b: Point, s: Point) -> (r: bool)
    ensures
        r == strictly_between(a, b, s),
{
    let dx: i128 = b.x as i128 - a.x as i128;
    let dy: i128 = b.y as i128 - a.y as i128;
    let ex: i128 = s.x as i128 - a.x as i128;
    let ey: i128 = s.y as i128 - a.y as i128;
    let adx: i128 = if dx < 0 { -dx } else { dx };
    let ady: i128 = if dy < 0 { -dy } else { dy };
    let aex: i128 = if ex < 0 { -ex } else { ex };
    let aey: i128 = if ey < 0 { -ey } else { ey };
    let far: i128 = if adx >= ady { adx } else { ady };
    let near: i128 = if aex >= aey { aex } else { aey };
    (dx == 0 || dy == 0 || adx == ady) && (ex == 0 || ey == 0 || aex == aey) && ((ex < 0) == (dx
        < 0)) && ((ex == 0) == (dx == 0)) && ((ey < 0) == (dy < 0)) && ((ey == 0) == (dy == 0))
        && 0 < near && near < far
}

/// Whether `v` holds the pair of `p` and `d`.
fn holds_pair(v: &Vec<(Point, Option<Direction>)>, p: Point, d: Option<Direction>) -> (found: bool)
    ensures
        found == v@.contains((p, d)),
{
    let mut i: usize = 0;
    while i < v.len()
        invariant
            i <= v.len(),
            forall|j: int| 0 <= j < i ==> v@[j] != (p, d),
        decreases v.len() - i,
    {
        if v[i].0 == p && v[i].1 == d {
            return true;
        }
        i += 1;
    }
    false
}

impl Add for Point {
    type Output = Point;

    fn add(self, rhs: Point) -> (sum: Point) {
        Point { x: self.x + rhs.x, y: self.y + rhs.y }
    }
}

impl AddSpecImpl for Point {
    open spec fn obeys_add_spec() -> bool {
        true
    }

    open spec fn add_req(self, rhs: Point) -> bool {
        &&& isize::MIN <= self.x + rhs.x <= isize::MAX
        &&& isize::MIN <= self.y + rhs.y <= isize::MAX
    }

    open spec fn add_spec(self, rhs: Point) -> Point {
        Point { x: (self.x + rhs.x) as isize, y: (self.y + rhs.y) as isize }
    }
}

impl AddAssign for Point {
    fn add_assign(&mut self, rhs: Point)
        requires
            isize::MIN <= old(self).x + rhs.x <= isize::MAX,
            isize::MIN <= old(self).y + rhs.y <= isize::MAX,
        ensures
            final(self).x == old(self).x + rhs.x,
            final(self).y == old(self).y + rhs.y,
    {
        self.x = self.x + rhs.x;
        self.y = self.y + rhs.y;
    }
}

impl Sub for Point {
    type Output = Point;

    fn sub(self, rhs: Point) -> (difference: Point) {
        Point { x: self.x - rhs.x, y: self.y - rhs.y }
    }
}

impl SubSpecImpl for Point {
    open spec fn obeys_sub_spec() -> bool {
        true
    }

    open spec fn sub_req(self, rhs: Point) -> bool {
        &&& isize::MIN <= self.x - rhs.x <= isize::MAX
        &&& isize::MIN <= self.y - rhs.y <= isize::MAX
    }

    open spec fn sub_spec(self, rhs: Point) -> Point {
        Point { x: (self.x - rhs.x) as isize, y: (self.y - rhs.y) as isize }
    }
}

impl Sub<isize> for Point {
    type Output = Point;

    fn sub(self, rhs: isize) -> (difference: Point) {
        Point { x: self.x - rhs, y: self.y - rhs }
    }
}

impl SubSpecImpl<isize> for Point {
    open spec fn obeys_sub_spec() -> bool {
        true
    }

    open spec fn sub_req(self, rhs: isize) -> bool {
        &&& isize::MIN <= self.x - rhs <= isize::MAX
        &&& isize::MIN <= self.y - rhs <= isize::MAX
    }

    open spec fn sub_spec(self, rhs: isize) -> Point {
        Point { x: (self.x - rhs) as isize, y: (self.y - rhs) as isize }
    }
}

impl Mul<isize> for Point {
    type Output = Point;

    fn mul(self, rhs: isize) -> (product: Point) {
        Point { x: self.x * rhs, y: self.y * rhs }
    }
}

impl MulSpecImpl<isize> for Point {
    open spec fn obeys_mul_spec() -> bool {
        true
    }

    open spec fn mul_req(self, rhs: isize) -> bool {
        &&& isize::MIN <= self.x * rhs <= isize::MAX
        &&& isize::MIN <= self.y * rhs <= isize::MAX
    }

    open spec fn mul_spec(self, rhs: isize) -> Point {
        Point { x: (self.x * rhs) as isize, y: (self.y * rhs) as isize }
    }
}

impl Neg for Point {
    type Output = Point;

    fn neg(self) -> (negated: Point) {
        Point { x: -self.x, y: -self.y }
    }
}

impl NegSpecImpl for Point {
    open spec fn obeys_neg_spec() -> bool {
        true
    }

    open spec fn neg_req(self) -> bool {
        self.x > isize::MIN && self.y > isize::MIN
    }

    open spec fn neg_spec(self) -> Point {
        Point { x: (-self.x) as isize, y: (-self.y) as isize }
    }
}

impl Default for Point {
    fn default() -> (p: Point)
        ensures
            p == (Point { x: 0, y: 0 }),
    {
        Point { x: 0, y: 0 }
    }
}

impl From<(isize, isize)> for Point {
    fn from(pair: (isize, isize)) -> (p: Point) {
        Point { x: pair.0, y: pair.1 }
    }
}

impl FromSpecImpl<(isize, isize)> for Point {
    open spec fn obeys_from_spec() -> bool {
        true
    }

    open spec fn from_spec(pair: (isize, isize)) -> Point {
        Point { x: pair.0, y: pair.1 }
    }
}

impl TryFrom<&str> for Point {
    type Error = ParsePointError;

    fn try_from(s: &str) -> (r: Result<Point, ParsePointError>) {
        if s.unicode_len() != 2 {
            return Err(ParsePointError::InvalidLength);
        }
        let file = s.get_char(0);
        let rank = s.get_char(1);
        let x: isize = if 'a' <= file && file <= 'h' {
            (file as u32 - 'a' as u32) as isize
        } else if 'A' <= file && file <= 'H' {
            (file as u32 - 'A' as u32) as isize
        } else {
            return Err(ParsePointError::InvalidCoords);
        };
        if '1' <= rank && rank <= '8' {
            Ok(Point { x, y: (rank as u32 - '1' as u32) as isize })
        } else {
            Err(ParsePointError::InvalidCoords)
        }
    }
}

impl TryFromSpecImpl<&str> for Point {
    open spec fn obeys_try_from_spec() -> bool {
        true
    }

    open spec fn try_from_spec(s: &str) -> Result<Point, ParsePointError> {
        parse_point(s@)
    }
}

} // verus!
