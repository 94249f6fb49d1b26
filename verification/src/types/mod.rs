//! The values that the board works with: colors, movements and pieces.

pub mod color;
pub mod movement;
pub mod moves;
pub mod piece;

pub use color::Color;
pub use movement::{Movement, SpecialMove};
pub use piece::bishop::Bishop;
pub use piece::king::King;
pub use piece::knight::Knight;
pub use piece::pawn::Pawn;
pub use piece::queen::Queen;
pub use piece::rook::Rook;
pub use piece::{piece_from_char, placement, PawnState, Piece, PieceState, State};
