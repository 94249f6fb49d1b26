//! Rules engine for classic 8x8 chess: geometry, piece move sets, the board's
//! legality filter, the move mutator and the check / checkmate / stalemate oracle.

// Each module comes after the modules it builds on.
pub mod geomath;
pub mod types;
pub mod unique;
pub mod chessboard;
pub mod game;
pub mod prelude;
