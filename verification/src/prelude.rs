//! Everything a caller of the engine needs, in one place.

pub use crate::chessboard::{Board, Row, Square};
pub use crate::game::{ask_upgrade, p_name, Game, InvalidUpgrade, Refusal, Verdict};
pub use crate::geomath::rotation::Direction;
pub use crate::geomath::{lies_between, ParsePointError, Point};
pub use crate::types::color::Color;
pub use crate::types::movement::{Movement, SpecialMove};
pub use crate::types::piece::bishop::Bishop;
pub use crate::types::piece::king::King;
pub use crate::types::piece::knight::Knight;
pub use crate::types::piece::pawn::Pawn;
pub use crate::types::piece::queen::Queen;
pub use crate::types::piece::rook::Rook;
pub use crate::types::piece::{piece_from_char, placement, PawnState, Piece, PieceState, State};
