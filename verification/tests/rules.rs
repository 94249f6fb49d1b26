use indexmap::IndexSet;
use rusty_chess::prelude::{
    placement, Bishop, Board, Color, Direction, King, Knight, Movement, Pawn, PawnState, Piece,
    PieceState, Point, Queen, Rook, SpecialMove, State,
};

fn put(board: &mut Board, piece: Piece) {
    board.put(piece.pos(), Some(piece));
}

fn destinations(board: &Board, from: Point) -> Vec<Point> {
    board.filtered_move_set(from).into_iter().map(|m| m.to).collect()
}

fn special_count(board: &Board, from: Point, special: SpecialMove) -> usize {
    board
        .filtered_move_set(from)
        .into_iter()
        .filter(|m| m.special == Some(special))
        .count()
}

fn all_kinds(color: Color, pos: Point) -> Vec<Piece> {
    vec![
        Piece::Pawn(Pawn::new(color, pos)),
        Piece::Knight(Knight::new(color, pos)),
        Piece::Bishop(Bishop::new(color, pos)),
        Piece::Rook(Rook::new(color, pos)),
        Piece::Queen(Queen::new(color, pos)),
        Piece::King(King::new(color, pos)),
    ]
}

#[test]
fn move_sets_stay_on_the_board() {
    for x in -3..11 {
        for y in -3..11 {
            for color in [Color::White, Color::Black] {
                for piece in all_kinds(color, Point::new(x, y)) {
                    for m in piece.move_set() {
                        assert!(Board::in_bounds(m.to), "{piece:?} reaches {m:?}");
                        assert_eq!(m.from, Point::new(x, y));
                    }
                }
            }
        }
    }
}

#[test]
fn move_set_sizes() {
    let corner = Point::new(0, 0);
    let middle = Point::new(3, 4);
    assert_eq!(Rook::new(Color::White, corner).move_set().len(), 14);
    assert_eq!(Rook::new(Color::White, middle).move_set().len(), 14);
    assert_eq!(Bishop::new(Color::White, corner).move_set().len(), 7);
    assert_eq!(Bishop::new(Color::White, middle).move_set().len(), 13);
    assert_eq!(Queen::new(Color::White, middle).move_set().len(), 27);
    assert_eq!(Knight::new(Color::White, middle).move_set().len(), 8);
    assert_eq!(Knight::new(Color::White, corner).move_set().len(), 2);
    assert_eq!(King::new(Color::White, middle).move_set().len(), 10);
    assert_eq!(King::new(Color::White, corner).move_set().len(), 4);
    assert_eq!(Pawn::new(Color::White, Point::new(0, 1)).move_set().len(), 3);
    assert_eq!(Pawn::new(Color::Black, Point::new(3, 0)).move_set().len(), 0);
    assert_eq!(Pawn::new(Color::White, Point::new(3, 6)).move_set().len(), 3);
}

#[test]
fn move_sets_keep_their_order() {
    let king: Vec<Movement> = King::new(Color::White, Point::new(4, 0))
        .move_set()
        .into_iter()
        .collect();
    let start = Point::new(4, 0);
    assert_eq!(
        king,
        vec![
            Movement::new(start, Point::new(5, 1), None, Some(Direction::UpRight)),
            Movement::new(start, Point::new(3, 1), None, Some(Direction::UpLeft)),
            Movement::new(start, Point::new(5, 0), None, Some(Direction::Right)),
            Movement::new(start, Point::new(3, 0), None, Some(Direction::Left)),
            Movement::new(start, Point::new(4, 1), None, Some(Direction::Up)),
            Movement::new(
                start,
                Point::new(2, 0),
                Some(SpecialMove::LongCastle),
                Some(Direction::Left)
            ),
            Movement::new(
                start,
                Point::new(6, 0),
                Some(SpecialMove::ShortCastle),
                Some(Direction::Right)
            ),
        ]
    );
    let queen: Vec<Point> = Queen::new(Color::Black, Point::new(0, 0))
        .move_set()
        .into_iter()
        .map(|m| m.to)
        .take(4)
        .collect();
    assert_eq!(
        queen,
        vec![
            Point::new(0, 1),
            Point::new(1, 0),
            Point::new(0, 2),
            Point::new(2, 0)
        ]
    );
}

#[test]
fn lone_rook_keeps_its_move_set() {
    for x in 0..8 {
        for y in 0..8 {
            let pos = Point::new(x, y);
            let rook = Rook::new(Color::Black, pos);
            let mut board = Board::empty();
            board.put(pos, Some(Piece::Rook(rook)));
            let legal: Vec<Movement> = board.filtered_move_set(pos).into_iter().collect();
            let raw: Vec<Movement> = rook.move_set().into_iter().collect();
            assert_eq!(legal, raw);
            assert_eq!(legal.len(), 14);
        }
    }
}

#[test]
fn enemy_on_a_ray() {
    for slider in [
        Piece::Rook(Rook::new(Color::White, Point::new(3, 1))),
        Piece::Queen(Queen::new(Color::White, Point::new(3, 1))),
    ] {
        let mut board = Board::empty();
        put(&mut board, slider);
        put(&mut board, Piece::Knight(Knight::new(Color::Black, Point::new(3, 4))));
        let to = destinations(&board, Point::new(3, 1));
        assert!(to.contains(&Point::new(3, 2)));
        assert!(to.contains(&Point::new(3, 3)));
        assert!(to.contains(&Point::new(3, 4)));
        assert!(!to.contains(&Point::new(3, 5)));
        assert!(!to.contains(&Point::new(3, 6)));
        assert!(!to.contains(&Point::new(3, 7)));
        // the other rays are whole
        assert!(to.contains(&Point::new(3, 0)));
        assert!(to.contains(&Point::new(0, 1)));
        assert!(to.contains(&Point::new(7, 1)));
    }
    let mut board = Board::empty();
    put(&mut board, Piece::Bishop(Bishop::new(Color::Black, Point::new(6, 6))));
    put(&mut board, Piece::Pawn(Pawn::new(Color::White, Point::new(3, 3))));
    let to = destinations(&board, Point::new(6, 6));
    assert!(to.contains(&Point::new(5, 5)));
    assert!(to.contains(&Point::new(4, 4)));
    assert!(to.contains(&Point::new(3, 3)));
    assert!(!to.contains(&Point::new(2, 2)));
    assert!(!to.contains(&Point::new(1, 1)));
    assert!(!to.contains(&Point::new(0, 0)));
    assert_eq!(to.len(), 9 - 3);
}

#[test]
fn friend_on_a_ray() {
    for slider in [
        Piece::Rook(Rook::new(Color::White, Point::new(3, 1))),
        Piece::Queen(Queen::new(Color::White, Point::new(3, 1))),
    ] {
        let mut board = Board::empty();
        put(&mut board, slider);
        put(&mut board, Piece::Knight(Knight::new(Color::White, Point::new(3, 4))));
        let to = destinations(&board, Point::new(3, 1));
        assert!(to.contains(&Point::new(3, 2)));
        assert!(to.contains(&Point::new(3, 3)));
        assert!(!to.contains(&Point::new(3, 4)));
        assert!(!to.contains(&Point::new(3, 5)));
        assert!(!to.contains(&Point::new(3, 7)));
    }
    let mut board = Board::empty();
    put(&mut board, Piece::Bishop(Bishop::new(Color::Black, Point::new(6, 6))));
    put(&mut board, Piece::Pawn(Pawn::new(Color::Black, Point::new(5, 5))));
    let to = destinations(&board, Point::new(6, 6));
    assert!(!to.contains(&Point::new(5, 5)));
    assert!(!to.contains(&Point::new(4, 4)));
    assert!(!to.contains(&Point::new(0, 0)));
    assert_eq!(to.len(), 3);
}

#[test]
fn pawn_first_moves() {
    for (color, home) in [(Color::White, 1), (Color::Black, 6)] {
        for x in 0..8 {
            let pos = Point::new(x, home);
            let mut pawn = Pawn::new(color, pos);
            let mut board = Board::empty();
            board.put(pos, Some(Piece::Pawn(pawn)));
            assert_eq!(special_count(&board, pos, SpecialMove::CannotEat), 1);
            assert_eq!(special_count(&board, pos, SpecialMove::DoublePawn), 1);
            assert_eq!(special_count(&board, pos, SpecialMove::PawnEat), 0);
            let double = board
                .filtered_move_set(pos)
                .into_iter()
                .find(|m| m.special == Some(SpecialMove::DoublePawn))
                .unwrap();
            assert_eq!(double.to, Point::new(x, home + 2 * color.sign()));

            for state in [PawnState::Already, PawnState::JustDouble] {
                pawn.set_state(State::PawnState(state));
                board.put(pos, Some(Piece::Pawn(pawn)));
                assert_eq!(special_count(&board, pos, SpecialMove::CannotEat), 1);
                assert_eq!(special_count(&board, pos, SpecialMove::DoublePawn), 0);
            }
        }
    }
}

#[test]
fn pawn_double_step_needs_both_cells() {
    let pos = Point::new(4, 1);
    let mut board = Board::empty();
    put(&mut board, Piece::Pawn(Pawn::new(Color::White, pos)));
    put(&mut board, Piece::Knight(Knight::new(Color::Black, Point::new(4, 3))));
    assert_eq!(destinations(&board, pos), vec![Point::new(4, 2)]);
    board.put(Point::new(4, 3), None);
    put(&mut board, Piece::Knight(Knight::new(Color::Black, Point::new(4, 2))));
    assert!(destinations(&board, pos).is_empty());
}

#[test]
fn en_passant_window() {
    let mut board = Board::empty();
    put(&mut board, Piece::King(King::new(Color::White, Point::new(4, 0))));
    put(&mut board, Piece::King(King::new(Color::Black, Point::new(4, 7))));
    put(&mut board, Piece::Pawn(Pawn::new(Color::White, Point::new(4, 4))));
    put(&mut board, Piece::Pawn(Pawn::new(Color::Black, Point::new(3, 6))));
    put(&mut board, Piece::Pawn(Pawn::new(Color::Black, Point::new(7, 6))));
    put(&mut board, Piece::Pawn(Pawn::new(Color::White, Point::new(0, 1))));

    // Black advances by two cells next to the white pawn
    let double = board
        .filtered_move_set(Point::new(3, 6))
        .into_iter()
        .find(|m| m.special == Some(SpecialMove::DoublePawn))
        .unwrap();
    assert_eq!(board.do_move(&double, None), None);
    assert!(matches!(
        board.piece_at(Point::new(3, 4)),
        Some(Piece::Pawn(pawn)) if pawn.state == PawnState::JustDouble
    ));

    // on the next ply White may capture en passant
    let capture = Movement::new(
        Point::new(4, 4),
        Point::new(3, 5),
        Some(SpecialMove::PawnEat),
        Some(Direction::UpLeft),
    );
    assert!(board.filtered_move_set(Point::new(4, 4)).contains(&capture));

    // White plays something else, which leaves the window open for this ply only
    let other = board
        .filtered_move_set(Point::new(0, 1))
        .into_iter()
        .find(|m| m.special == Some(SpecialMove::CannotEat))
        .unwrap();
    board.do_move(&other, None);
    assert!(board.filtered_move_set(Point::new(4, 4)).contains(&capture));

    // Black moves again: the pawn has advanced already, the capture is gone
    let reply = board
        .filtered_move_set(Point::new(7, 6))
        .into_iter()
        .find(|m| m.special == Some(SpecialMove::CannotEat))
        .unwrap();
    board.do_move(&reply, None);
    assert!(matches!(
        board.piece_at(Point::new(3, 4)),
        Some(Piece::Pawn(pawn)) if pawn.state == PawnState::Already
    ));
    assert!(!board.filtered_move_set(Point::new(4, 4)).contains(&capture));
    assert_eq!(special_count(&board, Point::new(4, 4), SpecialMove::PawnEat), 0);
}

#[test]
fn en_passant_takes_the_pawn() {
    let mut board = Board::empty();
    let mut passed = Pawn::new(Color::White, Point::new(2, 3));
    passed.set_state(PawnState::JustDouble.into());
    put(&mut board, Piece::Pawn(passed));
    put(&mut board, Piece::Pawn(Pawn::new(Color::Black, Point::new(1, 3))));
    let capture = Movement::new(
        Point::new(1, 3),
        Point::new(2, 2),
        Some(SpecialMove::PawnEat),
        Some(Direction::UpLeft),
    );
    assert!(board.filtered_move_set(Point::new(1, 3)).contains(&capture));
    assert_eq!(board.do_move(&capture, None), Some((1, Color::White)));
    assert!(board.piece_at(Point::new(2, 3)).is_none());
    assert!(board.piece_at(Point::new(1, 3)).is_none());
    assert!(matches!(
        board.piece_at(Point::new(2, 2)),
        Some(Piece::Pawn(pawn)) if pawn.color == Color::Black && pawn.pos == Point::new(2, 2)
    ));
    assert_eq!(board.all_pieces(), vec![Point::new(2, 2)]);
}

#[test]
fn only_a_pawn_is_taken_en_passant() {
    let mut board = Board::empty();
    put(&mut board, Piece::Bishop(Bishop::new(Color::White, Point::new(2, 3))));
    put(&mut board, Piece::Pawn(Pawn::new(Color::Black, Point::new(1, 3))));
    assert_eq!(special_count(&board, Point::new(1, 3), SpecialMove::PawnEat), 0);
}

fn castle_board() -> Board {
    let mut board = Board::empty();
    put(&mut board, Piece::King(King::new(Color::White, Point::new(4, 0))));
    put(&mut board, Piece::Rook(Rook::new(Color::White, Point::new(7, 0))));
    put(&mut board, Piece::Rook(Rook::new(Color::White, Point::new(0, 0))));
    board
}

fn castles(board: &Board) -> (bool, bool) {
    let king = Point::new(4, 0);
    (
        special_count(board, king, SpecialMove::ShortCastle) == 1,
        special_count(board, king, SpecialMove::LongCastle) == 1,
    )
}

#[test]
fn castle_example() {
    let mut board = Board::empty();
    put(&mut board, Piece::King(King::new(Color::White, Point::new(4, 0))));
    put(&mut board, Piece::Rook(Rook::new(Color::White, Point::new(7, 0))));
    assert_eq!(castles(&board), (true, false));
    // a bishop of the other side that attacks f1
    put(&mut board, Piece::Bishop(Bishop::new(Color::Black, Point::new(2, 3))));
    assert_eq!(castles(&board), (false, false));
}

#[test]
fn castle_conditions() {
    assert_eq!(castles(&castle_board()), (true, true));

    // the king has moved
    let mut board = castle_board();
    let mut king = King::new(Color::White, Point::new(4, 0));
    king.set_state(PieceState::Already.into());
    put(&mut board, Piece::King(king));
    assert_eq!(castles(&board), (false, false));

    // a rook has moved
    let mut board = castle_board();
    let mut rook = Rook::new(Color::White, Point::new(0, 0));
    rook.set_state(PieceState::Already.into());
    put(&mut board, Piece::Rook(rook));
    assert_eq!(castles(&board), (true, false));

    // a piece stands between the king and a rook
    let mut board = castle_board();
    put(&mut board, Piece::Knight(Knight::new(Color::White, Point::new(1, 0))));
    assert_eq!(castles(&board), (true, false));
    let mut board = castle_board();
    put(&mut board, Piece::Knight(Knight::new(Color::Black, Point::new(6, 0))));
    assert_eq!(castles(&board), (false, true));

    // the king is in check
    let mut board = castle_board();
    put(&mut board, Piece::Rook(Rook::new(Color::Black, Point::new(4, 6))));
    assert_eq!(castles(&board), (false, false));

    // the cell the king passes is attacked
    let mut board = castle_board();
    put(&mut board, Piece::Rook(Rook::new(Color::Black, Point::new(5, 6))));
    assert_eq!(castles(&board), (false, true));
    let mut board = castle_board();
    put(&mut board, Piece::Rook(Rook::new(Color::Black, Point::new(3, 6))));
    assert_eq!(castles(&board), (true, false));

    // the cell the king arrives at is attacked
    let mut board = castle_board();
    put(&mut board, Piece::Rook(Rook::new(Color::Black, Point::new(6, 6))));
    assert_eq!(castles(&board), (false, true));
    let mut board = castle_board();
    put(&mut board, Piece::Rook(Rook::new(Color::Black, Point::new(2, 6))));
    assert_eq!(castles(&board), (true, false));

    // the cell next to the far rook may be attacked: the king does not pass it
    let mut board = castle_board();
    put(&mut board, Piece::Rook(Rook::new(Color::Black, Point::new(1, 6))));
    assert_eq!(castles(&board), (true, true));

    // the piece on the rook's cell is no rook of the king's side
    let mut board = castle_board();
    put(&mut board, Piece::Rook(Rook::new(Color::Black, Point::new(7, 0))));
    put(&mut board, Piece::Knight(Knight::new(Color::White, Point::new(0, 0))));
    assert_eq!(castles(&board), (false, false));
}

#[test]
fn two_kings_that_may_castle() {
    let mut board = castle_board();
    put(&mut board, Piece::King(King::new(Color::Black, Point::new(4, 7))));
    put(&mut board, Piece::Rook(Rook::new(Color::Black, Point::new(7, 7))));
    put(&mut board, Piece::Rook(Rook::new(Color::Black, Point::new(0, 7))));
    assert_eq!(castles(&board), (true, true));
    assert_eq!(
        special_count(&board, Point::new(4, 7), SpecialMove::ShortCastle),
        1
    );
    assert_eq!(
        special_count(&board, Point::new(4, 7), SpecialMove::LongCastle),
        1
    );
}

#[test]
fn castle_moves_the_rook() {
    let mut board = castle_board();
    let short = Movement::new(
        Point::new(4, 0),
        Point::new(6, 0),
        Some(SpecialMove::ShortCastle),
        Some(Direction::Right),
    );
    assert_eq!(board.do_move(&short, None), None);
    assert_eq!(
        board.piece_at(Point::new(6, 0)),
        Some(Piece::King(King {
            color: Color::White,
            pos: Point::new(6, 0),
            state: PieceState::Already
        }))
    );
    assert_eq!(
        board.piece_at(Point::new(5, 0)),
        Some(Piece::Rook(Rook {
            color: Color::White,
            pos: Point::new(5, 0),
            state: PieceState::Already
        }))
    );
    assert_eq!(
        board.all_pieces(),
        vec![Point::new(0, 0), Point::new(5, 0), Point::new(6, 0)]
    );

    let mut board = castle_board();
    let long = Movement::new(
        Point::new(4, 0),
        Point::new(2, 0),
        Some(SpecialMove::LongCastle),
        Some(Direction::Left),
    );
    board.do_move(&long, None);
    assert_eq!(
        board.all_pieces(),
        vec![Point::new(2, 0), Point::new(3, 0), Point::new(7, 0)]
    );
    assert!(matches!(board.piece_at(Point::new(3, 0)), Some(Piece::Rook(_))));
}

#[test]
fn checkmate_fixture() {
    // Black king h8; White rook f8 and king g6
    let mut board = Board::empty();
    put(&mut board, Piece::King(King::new(Color::Black, Point::new(7, 7))));
    put(&mut board, Piece::Rook(Rook::new(Color::White, Point::new(5, 7))));
    put(&mut board, Piece::King(King::new(Color::White, Point::new(6, 5))));
    let threat = board.check(Color::Black).unwrap();
    assert_eq!(threat.from, Point::new(5, 7));
    assert_eq!(threat.to, Point::new(7, 7));
    assert!(board.checks_around(Color::Black));
    assert!(board.is_check_stoppable(Color::Black).is_empty());
    assert!(board.checkmate(Color::Black));
    assert!(!board.stalemate(Color::Black));
    assert!(!board.checkmate(Color::White));

    // with a way out for the king it is only a check
    board.put(Point::new(6, 5), None);
    put(&mut board, Piece::King(King::new(Color::White, Point::new(5, 5))));
    assert!(board.check(Color::Black).is_some());
    assert!(!board.checks_around(Color::Black));
    assert!(!board.checkmate(Color::Black));

    // with a blocker it is no checkmate either
    let mut board = Board::empty();
    put(&mut board, Piece::King(King::new(Color::Black, Point::new(7, 7))));
    put(&mut board, Piece::Rook(Rook::new(Color::White, Point::new(4, 7))));
    put(&mut board, Piece::King(King::new(Color::White, Point::new(6, 5))));
    put(&mut board, Piece::Bishop(Bishop::new(Color::Black, Point::new(4, 5))));
    assert!(board.checks_around(Color::Black));
    let stoppers = board.is_check_stoppable(Color::Black);
    let to: Vec<Point> = stoppers.iter().map(|m| m.to).collect();
    assert_eq!(to, vec![Point::new(6, 7)]);
    assert!(!board.checkmate(Color::Black));
}

#[test]
fn a_rook_beside_the_file_gives_no_check() {
    // Black king h8; White rook f7 and king f6
    let mut board = Board::empty();
    put(&mut board, Piece::King(King::new(Color::Black, Point::new(7, 7))));
    put(&mut board, Piece::Rook(Rook::new(Color::White, Point::new(5, 6))));
    put(&mut board, Piece::King(King::new(Color::White, Point::new(5, 5))));
    assert!(board.check(Color::Black).is_none());
    assert!(!board.checkmate(Color::Black));
    assert!(!board.stalemate(Color::Black));
}

fn stalemate_board() -> Board {
    // Black king h8 behind its own pawns, which fill the files g and h
    let mut board = Board::empty();
    put(&mut board, Piece::King(King::new(Color::Black, Point::new(7, 7))));
    for y in 0..8 {
        put(&mut board, Piece::Pawn(Pawn::new(Color::Black, Point::new(6, y))));
        if y < 7 {
            put(&mut board, Piece::Pawn(Pawn::new(Color::Black, Point::new(7, y))));
        }
    }
    put(&mut board, Piece::King(King::new(Color::White, Point::new(0, 0))));
    board
}

#[test]
fn stalemate_fixture() {
    let mut board = stalemate_board();
    assert!(board.check(Color::Black).is_none());
    assert!(board.filtered_move_set(Point::new(7, 7)).is_empty());
    assert!(board.all_moves(Color::Black).is_empty());
    assert!(board.stalemate(Color::Black));
    assert!(!board.checkmate(Color::Black));
    assert!(!board.stalemate(Color::White));

    // the same king with one move that is no check
    board.put(Point::new(6, 7), None);
    assert_eq!(destinations(&board, Point::new(7, 7)), vec![Point::new(6, 7)]);
    assert!(!board.stalemate(Color::Black));
}

#[test]
fn two_kings_are_neither_mated_nor_stalemated() {
    let mut board = Board::empty();
    put(&mut board, Piece::King(King::new(Color::White, Point::new(4, 0))));
    put(&mut board, Piece::King(King::new(Color::Black, Point::new(4, 7))));
    for color in [Color::White, Color::Black] {
        assert!(board.check(color).is_none());
        assert!(!board.checkmate(color));
        assert!(!board.stalemate(color));
    }
}

#[test]
fn replay_on_a_clone() {
    let board = Board::default();
    let mut first = board.clone();
    let mut copy = first.clone();
    assert_eq!(first, copy);
    let moves = [
        ((4, 1), (4, 3)),
        ((3, 6), (3, 4)),
        ((4, 3), (3, 4)),
        ((3, 7), (3, 4)),
        ((6, 0), (5, 2)),
    ];
    for (from, to) in moves {
        let (from, to) = (Point::from(from), Point::from(to));
        let mov = first
            .filtered_move_set(from)
            .into_iter()
            .find(|m| m.to == to)
            .unwrap();
        let gain = first.do_move(&mov, None);
        assert_eq!(copy.do_move(&mov, None), gain);
        assert_eq!(first, copy);
    }
    assert_ne!(first, board);
}

#[test]
fn captures_are_reported() {
    let mut board = Board::empty();
    put(&mut board, Piece::Rook(Rook::new(Color::White, Point::new(0, 0))));
    put(&mut board, Piece::Queen(Queen::new(Color::Black, Point::new(0, 5))));
    put(&mut board, Piece::Knight(Knight::new(Color::Black, Point::new(3, 5))));
    put(&mut board, Piece::Bishop(Bishop::new(Color::Black, Point::new(3, 2))));
    put(&mut board, Piece::Pawn(Pawn::new(Color::White, Point::new(4, 1))));
    let step = |board: &Board, from: (isize, isize), to: (isize, isize)| {
        board
            .filtered_move_set(Point::from(from))
            .into_iter()
            .find(|m| m.to == Point::from(to))
            .unwrap()
    };
    let m = step(&board, (0, 0), (0, 3));
    assert_eq!(board.do_move(&m, None), None);
    let m = step(&board, (0, 3), (0, 5));
    assert_eq!(board.do_move(&m, None), Some((9, Color::Black)));
    let m = step(&board, (0, 5), (3, 5));
    assert_eq!(board.do_move(&m, None), Some((3, Color::Black)));
    let m = step(&board, (4, 1), (3, 2));
    assert_eq!(m.special, Some(SpecialMove::PawnEat));
    assert_eq!(board.do_move(&m, None), Some((3, Color::Black)));
    let m = step(&board, (3, 2), (3, 3));
    assert_eq!(board.do_move(&m, None), None);
    put(&mut board, Piece::Rook(Rook::new(Color::Black, Point::new(3, 7))));
    let m = step(&board, (3, 7), (3, 5));
    assert_eq!(board.do_move(&m, None), Some((5, Color::White)));
    let m = step(&board, (3, 5), (3, 3));
    assert_eq!(board.do_move(&m, None), Some((1, Color::White)));
    assert_eq!(board.all_pieces(), vec![Point::new(3, 3)]);
}

#[test]
fn a_move_closes_the_window_of_the_mover_only() {
    let mut board = Board::empty();
    let mut white = Pawn::new(Color::White, Point::new(0, 3));
    white.set_state(PawnState::JustDouble.into());
    let mut black = Pawn::new(Color::Black, Point::new(7, 4));
    black.set_state(PawnState::JustDouble.into());
    put(&mut board, Piece::Pawn(white));
    put(&mut board, Piece::Pawn(black));
    put(&mut board, Piece::Knight(Knight::new(Color::White, Point::new(4, 0))));
    let m = Movement::new(Point::new(4, 0), Point::new(5, 2), None, None);
    board.do_move(&m, None);
    assert!(matches!(
        board.piece_at(Point::new(0, 3)),
        Some(Piece::Pawn(pawn)) if pawn.state == PawnState::Already
    ));
    assert!(matches!(
        board.piece_at(Point::new(7, 4)),
        Some(Piece::Pawn(pawn)) if pawn.state == PawnState::JustDouble
    ));
}

#[test]
fn promotion() {
    let mut board = Board::empty();
    put(&mut board, Piece::Pawn(Pawn::new(Color::White, Point::new(2, 6))));
    put(&mut board, Piece::Pawn(Pawn::new(Color::Black, Point::new(5, 1))));
    put(&mut board, Piece::Rook(Rook::new(Color::White, Point::new(0, 6))));
    let up = Movement::new(
        Point::new(2, 6),
        Point::new(2, 7),
        Some(SpecialMove::CannotEat),
        Some(Direction::Up),
    );
    let down = Movement::new(
        Point::new(5, 1),
        Point::new(5, 0),
        Some(SpecialMove::CannotEat),
        Some(Direction::Up),
    );
    assert!(board.is_promoting(&up));
    assert!(board.is_promoting(&down));
    let rook = Movement::new(Point::new(0, 6), Point::new(0, 7), None, Some(Direction::Up));
    assert!(!board.is_promoting(&rook));
    let short = Movement::new(
        Point::new(5, 1),
        Point::new(5, 2),
        Some(SpecialMove::CannotEat),
        Some(Direction::Up),
    );
    assert!(!board.is_promoting(&short));
    let nothing = Movement::new(Point::new(1, 6), Point::new(1, 7), None, None);
    assert!(!board.is_promoting(&nothing));
    let outside = Movement::new(Point::new(-1, 6), Point::new(-1, 7), None, None);
    assert!(!board.is_promoting(&outside));

    // the piece that replaces the pawn takes the pawn's new cell
    let queen = Piece::Queen(Queen::new(Color::White, Point::new(0, 0)));
    board.do_move(&up, Some(queen));
    assert_eq!(
        board.piece_at(Point::new(2, 7)),
        Some(Piece::Queen(Queen::new(Color::White, Point::new(2, 7))))
    );
    assert!(board.piece_at(Point::new(2, 6)).is_none());
}

#[test]
fn kings_on_the_board() {
    let mut board = Board::empty();
    assert!(!board.has_king(Color::White));
    put(&mut board, Piece::King(King::new(Color::Black, Point::new(7, 7))));
    put(&mut board, Piece::Queen(Queen::new(Color::White, Point::new(0, 0))));
    assert!(board.has_king(Color::Black));
    assert!(!board.has_king(Color::White));
    assert_eq!(board.find_king(Color::Black), Point::new(7, 7));
    // of two kings of a side the first counts, cell after cell
    put(&mut board, Piece::King(King::new(Color::Black, Point::new(3, 2))));
    put(&mut board, Piece::King(King::new(Color::Black, Point::new(0, 5))));
    assert_eq!(board.find_king(Color::Black), Point::new(3, 2));
    assert!(Board::default().has_king(Color::White));
    assert_eq!(Board::default().find_king(Color::White), Point::new(4, 0));
    assert_eq!(Board::default()[Point::new(4, 7)], Some(Piece::King(King::new(Color::Black, Point::new(4, 7)))));
}

#[test]
fn moves_the_board_can_carry_out() {
    let board = Board::default();
    let mv = |from: (isize, isize), to: (isize, isize), special: Option<SpecialMove>| {
        Movement::new(Point::from(from), Point::from(to), special, None)
    };
    assert!(board.can_play(&mv((1, 0), (2, 2), None)));
    assert!(board.can_play(&mv((0, 0), (5, 5), None)));
    assert!(!board.can_play(&mv((4, 4), (5, 5), None)));
    assert!(!board.can_play(&mv((0, 0), (0, 8), None)));
    assert!(!board.can_play(&mv((-1, 0), (0, 0), None)));
    assert!(board.can_play(&mv((4, 1), (4, 3), Some(SpecialMove::DoublePawn))));
    assert!(!board.can_play(&mv((4, 0), (4, 3), Some(SpecialMove::DoublePawn))));
    assert!(!board.can_play(&mv((0, 0), (0, 3), Some(SpecialMove::DoublePawn))));
    assert!(board.can_play(&mv((4, 0), (6, 0), Some(SpecialMove::ShortCastle))));
    assert!(board.can_play(&mv((4, 0), (2, 0), Some(SpecialMove::LongCastle))));
    assert!(!board.can_play(&mv((5, 0), (7, 0), Some(SpecialMove::ShortCastle))));
    assert!(!board.can_play(&mv((3, 0), (1, 0), Some(SpecialMove::LongCastle))));
    assert!(!board.can_play(&mv((4, 0), (0, 0), Some(SpecialMove::ShortCastle))));
    assert!(board.can_play(&mv((4, 1), (3, 2), Some(SpecialMove::PawnEat))));
    assert!(board.can_play(&mv((4, 6), (3, 7), Some(SpecialMove::PawnEat))));
    assert!(!board.can_play(&mv((4, 1), (4, 2), Some(SpecialMove::PawnEat))));
    for color in [Color::White, Color::Black] {
        for m in board.all_moves(color) {
            assert!(board.can_play(&m));
        }
    }
}

#[test]
fn attacks() {
    let mut board = Board::empty();
    put(&mut board, Piece::Pawn(Pawn::new(Color::White, Point::new(3, 3))));
    put(&mut board, Piece::Knight(Knight::new(Color::Black, Point::new(4, 4))));
    // a pawn reaches the cell ahead, and a cell ahead diagonally only to capture
    assert!(board.is_attacked(Point::new(3, 4), Color::White));
    assert!(board.is_attacked(Point::new(4, 4), Color::White));
    assert!(!board.is_attacked(Point::new(2, 4), Color::White));
    assert!(!board.is_attacked(Point::new(3, 3), Color::White));
    assert!(board.is_attacked(Point::new(3, 2), Color::Black));
    assert!(board.is_attacked(Point::new(6, 5), Color::Black));
    assert!(!board.is_attacked(Point::new(3, 3), Color::Black));
    assert!(!board.is_attacked(Point::new(3, 4), Color::Black));
}

#[test]
fn paths() {
    let mut board = Board::empty();
    put(&mut board, Piece::Pawn(Pawn::new(Color::White, Point::new(3, 3))));
    assert!(!board.path_is_clear(Point::new(0, 0), Point::new(7, 7)));
    assert!(!board.path_is_clear(Point::new(3, 0), Point::new(3, 4)));
    assert!(board.path_is_clear(Point::new(3, 0), Point::new(3, 3)));
    assert!(board.path_is_clear(Point::new(3, 3), Point::new(3, 7)));
    assert!(board.path_is_clear(Point::new(2, 3), Point::new(4, 3)) == false);
    assert!(board.path_is_clear(Point::new(2, 1), Point::new(4, 5)));
    assert!(board.path_is_clear(Point::new(2, 2), Point::new(2, 2)));
}

#[test]
fn all_moves_of_a_side() {
    let board = Board::default();
    for color in [Color::White, Color::Black] {
        let moves = board.all_moves(color);
        // sixteen moves of the pawns and four of the knights
        assert_eq!(moves.len(), 20);
        let set: IndexSet<Movement> = moves.iter().copied().collect();
        assert_eq!(set.len(), 20);
        assert!(moves
            .iter()
            .all(|m| matches!(board.piece_at(m.from), Some(p) if p.color() == color)));
    }
    let first = board.all_moves(Color::White)[0];
    assert_eq!(
        first,
        Movement::new(Point::new(1, 0), Point::new(2, 2), None, None)
    );
    assert_eq!(board.all_pieces().len(), 32);
    assert_eq!(board.all_pieces()[0], Point::new(0, 0));
    assert_eq!(board.all_pieces()[31], Point::new(7, 7));
    assert!(Board::empty().all_pieces().is_empty());
    assert!(Board::empty().all_moves(Color::White).is_empty());
    let white = board.all_color_pieces(Color::White);
    let black = board.all_color_pieces(Color::Black);
    assert_eq!(white.len(), 16);
    assert_eq!(white[0], Point::new(0, 0));
    assert_eq!(white[15], Point::new(7, 1));
    assert_eq!(black[0], Point::new(0, 6));
    assert_eq!(black[15], Point::new(7, 7));
    assert_eq!([white, black].concat(), board.all_pieces());
}

#[test]
fn board_cells() {
    let mut board = Board::default();
    assert_eq!(Board::SIZE, 8);
    assert!(Board::in_bounds(Point::new(0, 7)));
    assert!(!Board::in_bounds(Point::new(8, 0)));
    assert!(!Board::in_bounds(Point::new(0, -1)));
    assert_eq!(board.get(Point::new(8, 0)), None);
    assert_eq!(board.get(Point::new(4, 4)), Some(&None));
    assert_eq!(board.piece_at(Point::new(-1, 3)), None);
    for x in 0..8 {
        for color in [Color::White, Color::Black] {
            let first = Point::new(x, color.first_row() as isize);
            let second = Point::new(x, color.second_row() as isize);
            assert_eq!(board.piece_at(first), placement(x, color));
            assert_eq!(board.get(first), Some(&placement(x, color)));
            assert_eq!(
                board.piece_at(second),
                Some(Piece::Pawn(Pawn::new(color, second)))
            );
        }
    }
    assert_eq!(placement(8, Color::White), None);
    assert_eq!(placement(-1, Color::Black), None);
    assert_eq!(
        placement(4, Color::Black),
        Some(Piece::King(King::new(Color::Black, Point::new(4, 7))))
    );
    assert_eq!(
        placement(3, Color::White),
        Some(Piece::Queen(Queen::new(Color::White, Point::new(3, 0))))
    );
    // a piece that is put on a cell takes the cell as its position
    let mut rook = Rook::new(Color::White, Point::new(0, 0));
    rook.set_state(PieceState::Already.into());
    board.put(Point::new(4, 4), Some(Piece::Rook(rook)));
    assert_eq!(
        board.piece_at(Point::new(4, 4)),
        Some(Piece::Rook(Rook {
            color: Color::White,
            pos: Point::new(4, 4),
            state: PieceState::Already
        }))
    );
    board.put(Point::new(4, 4), None);
    assert_eq!(board, Board::default());
}

#[test]
fn piece_values_and_states() {
    let pos = Point::new(2, 2);
    let scores: Vec<u8> = all_kinds(Color::White, pos)
        .iter()
        .filter(|p| !p.is_king())
        .map(|p| p.score())
        .collect();
    assert_eq!(scores, vec![1, 3, 3, 5, 9]);

    let not_yet = State::PieceState(PieceState::NotYet);
    let fresh = State::PawnState(PawnState::NotYet);
    let mut pawn = Piece::Pawn(Pawn::new(Color::Black, pos));
    assert!(pawn.is_pawn() && !pawn.is_king());
    assert!(pawn.is_state(fresh));
    assert!(!pawn.is_state(not_yet));
    pawn.set_state(PawnState::JustDouble.into());
    assert!(pawn.is_state(PawnState::JustDouble.into()));
    assert!(!pawn.is_state(fresh));
    assert_eq!(pawn.color_if_has_direction(), Color::Black);

    let mut king = Piece::King(King::new(Color::Black, pos));
    assert!(king.is_king());
    assert!(king.is_state(not_yet));
    assert!(!king.is_state(fresh));
    assert_eq!(king.color_if_has_direction(), Color::White);
    king.set_pos(Point::new(3, 3));
    assert_eq!(king.pos(), Point::new(3, 3));
    assert!(king.is_state(PieceState::Already.into()));
    assert_eq!(king.color(), Color::Black);

    let mut rook = Rook::new(Color::White, pos);
    assert!(rook.is_state(not_yet));
    rook.set_pos(pos);
    assert!(rook.is_state(PieceState::Already.into()));

    let mut knight = Piece::Knight(Knight::new(Color::White, pos));
    assert!(knight.is_state(fresh) && knight.is_state(not_yet));
    knight.set_state(fresh);
    knight.set_pos(Point::new(0, 0));
    assert_eq!(knight, Piece::Knight(Knight::new(Color::White, Point::new(0, 0))));

    let mut moved = pawn;
    moved.set_pos(Point::new(2, 1));
    assert!(moved.is_state(PawnState::JustDouble.into()));
    assert_eq!(pawn.placed_at(Point::new(2, 1)), moved);
}

#[test]
fn candidates_from_offsets() {
    let white = Pawn::new(Color::White, Point::new(0, 6));
    let black = Pawn::new(Color::Black, Point::new(0, 6));
    assert_eq!(
        white.to_movement(Point::new(1, 1), None, None),
        Some(Movement::new(Point::new(0, 6), Point::new(1, 7), None, None))
    );
    assert_eq!(
        black.to_movement(Point::new(-1, 1), None, Some(Direction::UpLeft)),
        Some(Movement::new(
            Point::new(0, 6),
            Point::new(1, 5),
            None,
            Some(Direction::UpLeft)
        ))
    );
    assert_eq!(white.to_movement(Point::new(0, 2), None, None), None);
    assert_eq!(black.to_movement(Point::new(1, 1), None, None), None);
    let far = Piece::Queen(Queen::new(Color::Black, Point::new(isize::MAX, isize::MIN)));
    assert_eq!(far.to_movement(Point::new(isize::MAX, isize::MIN), None, None), None);
    assert_eq!(
        far.to_movement(Point::new(isize::MIN, isize::MAX), None, None),
        None
    );
    assert!(far.move_set().is_empty());
    let knight = Knight::new(Color::Black, Point::new(-1, -2));
    assert_eq!(
        knight.to_movement(Point::new(1, 2), None, None),
        Some(Movement::new(Point::new(-1, -2), Point::new(0, 0), None, None))
    );
}

#[test]
fn linear_moves() {
    let m = |from: (isize, isize), to: (isize, isize)| {
        Movement::new(Point::from(from), Point::from(to), None, None).linear()
    };
    assert_eq!(m((1, 1), (1, 6)), Some(Point::new(0, 1)));
    assert_eq!(m((6, 1), (1, 1)), Some(Point::new(-1, 0)));
    assert_eq!(m((6, 1), (3, 4)), Some(Point::new(-1, 1)));
    assert_eq!(m((0, 7), (7, 0)), Some(Point::new(1, -1)));
    assert_eq!(m((2, 2), (2, 2)), Some(Point::new(0, 0)));
    assert_eq!(m((2, 2), (3, 4)), None);
    assert_eq!(m((isize::MIN, 0), (isize::MAX, 0)), Some(Point::new(1, 0)));
    assert_eq!(m((isize::MAX, isize::MAX), (isize::MIN, isize::MIN)), Some(Point::new(-1, -1)));
}

/// A board filled at random from `seed`: about one cell in three holds a piece.
fn scattered(seed: u64) -> Board {
    let mut state = seed;
    let mut next = move || {
        state = state
            .wrapping_mul(6364136223846793005)
            .wrapping_add(1442695040888963407);
        (state >> 33) as usize
    };
    let mut board = Board::empty();
    for x in 0..8 {
        for y in 0..8 {
            if next() % 3 != 0 {
                continue;
            }
            let color = if next() % 2 == 0 { Color::White } else { Color::Black };
            let piece = all_kinds(color, Point::new(x, y))[next() % 6];
            put(&mut board, piece);
        }
    }
    board
}

#[test]
fn walking_the_rays_by_direction() {
    // the candidates without a tag that remain are those that a walk along each
    // direction keeps: up to the first occupied cell, and that cell if it holds a
    // piece of the other side
    for seed in 0..200 {
        let board = scattered(seed);
        for from in board.all_pieces() {
            let piece = board.piece_at(from).unwrap();
            let mut stopped: Vec<Direction> = Vec::new();
            let mut kept: Vec<Movement> = Vec::new();
            for m in piece.move_set() {
                let occupant = board.piece_at(m.to);
                let free = occupant.map_or(true, |other| other.color() != piece.color());
                let passes = match m.direction {
                    None => free,
                    Some(direction) => {
                        if stopped.contains(&direction) {
                            false
                        } else {
                            if occupant.is_some() {
                                stopped.push(direction);
                            }
                            free
                        }
                    }
                };
                if passes && m.special.is_none() {
                    kept.push(m);
                }
            }
            let legal: Vec<Movement> = board
                .filtered_move_set(from)
                .into_iter()
                .filter(|m| m.special.is_none())
                .collect();
            assert_eq!(legal, kept, "seed {seed}, from {from:?}");
        }
    }
}

#[test]
fn legal_moves_of_scattered_boards() {
    for seed in 0..100 {
        let board = scattered(seed);
        for color in [Color::White, Color::Black] {
            let moves = board.all_moves(color);
            let mut expected: Vec<Movement> = Vec::new();
            for from in board.all_pieces() {
                if board.piece_at(from).unwrap().color() == color {
                    expected.extend(board.filtered_move_set(from));
                }
            }
            assert_eq!(moves, expected);
            for m in &moves {
                assert!(board.can_play(m));
                assert!(Board::in_bounds(m.to));
                assert!(board.piece_at(m.to).map_or(true, |p| p.color() != color));
                if m.special.is_none() || m.special == Some(SpecialMove::CannotEat) {
                    assert!(board.is_attacked(m.to, color));
                }
                let mut after = board.clone();
                if !matches!(board.piece_at(m.to), Some(Piece::King(_))) {
                    after.do_move(m, None);
                    assert!(after.piece_at(m.from).is_none());
                    assert_eq!(after.piece_at(m.to).map(|p| p.pos()), Some(m.to));
                    assert_eq!(after.piece_at(m.to).map(|p| p.color()), Some(color));
                }
            }
        }
    }
}

#[test]
fn a_check_is_an_attack_on_the_king() {
    for seed in 200..400 {
        let mut board = scattered(seed);
        for (color, cell) in [(Color::White, Point::new(4, 0)), (Color::Black, Point::new(4, 7))] {
            let mut king = King::new(color, cell);
            king.set_pos(cell);
            for other in board.all_color_pieces(color) {
                if matches!(board.piece_at(other), Some(Piece::King(_))) {
                    board.put(other, None);
                }
            }
            put(&mut board, Piece::King(king));
        }
        for color in [Color::White, Color::Black] {
            let cell = board.find_king(color);
            let threat = board.check(color);
            assert_eq!(threat.is_some(), board.is_attacked(cell, color.opposite()));
            if let Some(threat) = threat {
                assert_eq!(threat.to, cell);
                assert!(board.filtered_move_set(threat.from).contains(&threat));
                assert_eq!(board.all_moves(color.opposite()).iter().find(|m| m.to == cell), Some(&threat));
                let stoppers = board.is_check_stoppable(color);
                let expected: Vec<Movement> = board
                    .all_moves(color)
                    .into_iter()
                    .filter(|m| m.from != cell)
                    .filter(|m| {
                        m.to == threat.from
                            || rusty_chess::prelude::lies_between(threat.from, threat.to, m.to)
                    })
                    .collect();
                assert_eq!(stoppers, expected);
                let trapped = board.filtered_move_set(cell).into_iter().all(|m| {
                    let mut probe = board.clone();
                    if matches!(probe.piece_at(m.to), Some(Piece::King(_))) {
                        return true;
                    }
                    probe.do_move(&m, None);
                    probe.check(color).is_some()
                });
                if !board
                    .filtered_move_set(cell)
                    .into_iter()
                    .any(|m| matches!(board.piece_at(m.to), Some(Piece::King(_))))
                {
                    assert_eq!(board.checks_around(color), trapped);
                    assert_eq!(board.checkmate(color), trapped && stoppers.is_empty());
                }
            } else {
                assert!(!board.checkmate(color));
                assert_eq!(board.stalemate(color), board.all_moves(color).is_empty());
            }
        }
    }
}
