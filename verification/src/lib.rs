//! A verified chess rules engine.
//!
//! Given a board position and the player to move, the library produces the
//! exact set of legal moves, applies a chosen move while maintaining the
//! ancillary state needed for legality and termination (castling rights,
//! en-passant eligibility, capture and promotion bookkeeping, repetition and
//! fifty-move history), and determines whether the game has ended and how.
//!
//! The engine performs no I/O: reading move requests, choosing promotions
//! interactively, clocks and presentation are the hosting program's concern.

pub mod board;
pub mod movegen;
pub mod legality;
pub mod state;
pub mod laws;
