//! A two-player networked chess core: a verified rules engine (legal-move
//! generation, move application, terminal-state detection), a verified
//! length-delimited wire codec, and a verified per-connection session state
//! machine that re-validates every remote move before committing it.
//!
//! Transport, rendering and input mapping live outside the library; it only
//! computes on plain values handed in by the surrounding process.

pub mod board;
pub mod codec;
pub mod game;
pub mod piece;
pub mod rules;
pub mod session;
pub mod square;
