//! Rules engine of a falling-block puzzle game: piece shapes, a playfield
//! with collision detection and line clearing, scoring, a deterministic piece
//! sequencer, and a game that advances one tick at a time from a clock
//! reading and the pending input.

pub mod board;
pub mod count;
pub mod game;
pub mod rng;
pub mod scoring;
pub mod shape;
