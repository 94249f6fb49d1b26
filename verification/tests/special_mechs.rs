use rusty_chess::prelude::{Game, Movement, Piece, Point};

fn do_move(
    game: &mut Game,
    from: &str,
    to: &str,
    promoted: Option<Piece>,
) -> Result<Movement, String> {
    let from = Point::try_from(from).map_err(|e| format!("{e:?}"))?;
    let to = Point::try_from(to).map_err(|e| format!("{e:?}"))?;
    let mov = game
        .board
        .filtered_move_set(from)
        .into_iter()
        .find(|mov| mov.from == from && mov.to == to)
        .ok_or(format!("Move not valid: from: {from:?} to: {to:?}"))?;

    game.fifty_moves(&mov);
    game.board.do_move(&mov, promoted);

    Ok(mov)
}

#[test]
fn fifty_moves() -> Result<(), String> {
    let mut game = Game::default();
    let movements = [("B1", "C3"), ("G8", "F6"), ("C3", "B1"), ("F6", "G8")]
        .into_iter()
        .cycle();

    for (i, (from, to)) in movements.take(50).enumerate() {
        do_move(&mut game, from, to, None)?;
        assert_eq!(game.move_count, i as u8 + 1);
    }

    do_move(&mut game, "E2", "E4", None)?;
    assert_eq!(game.move_count, 0);

    Ok(())
}

#[test]
fn fifty_moves_verdict() {
    let mut game = Game::default();
    let out = Movement::new(Point::new(1, 0), Point::new(2, 2), None, None);
    for i in 0..49 {
        assert!(!game.fifty_moves(&out), "after {} moves", i + 1);
    }
    assert!(game.fifty_moves(&out));
    assert_eq!(game.move_count, 50);
    // a capture starts the count again
    let capture = Movement::new(Point::new(1, 0), Point::new(1, 6), None, None);
    assert!(!game.fifty_moves(&capture));
    assert_eq!(game.move_count, 0);
    // the count stops at what the number can hold
    game.move_count = 255;
    assert!(game.fifty_moves(&out));
    assert_eq!(game.move_count, 255);
}
