//! A legal chess move generator built on bitboards.
//!
//! A [`Position`] holds the twelve piece bitboards, the castling rights,
//! the en-passant target and the move clocks, together with a ply-indexed
//! history stack that makes `make_move` / `undo_move` exactly reversible.
//! `legal` enumerates exactly the legal moves of the side to move.

pub mod analysis;
pub mod bits;
pub mod fen;
pub mod lookup;
pub mod makeundo;
pub mod movegen;
pub mod position;
pub mod testing;
pub mod text;
pub mod types;

pub use position::Position;
pub use position::State;
