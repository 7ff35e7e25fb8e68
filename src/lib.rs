//! A falling-block puzzle game engine.
//!
//! - `tetromino`: the seven piece kinds, their offsets and quarter turns, and
//!   the wall-kick tables.
//! - `bag`: the bag strategies that draw the sequence of pieces.
//! - `config`: game settings and the tick interval per level.
//! - `board`: the playfield state machine (movement, kicked rotation, lock
//!   delay, line clears, scoring, hold, lookahead), specified over a model of
//!   plain values.
//! - `theorems`: what holds of that model across calls.
//! - `app`, `update`: the game session and its tick.

pub mod app;
pub mod bag;
pub mod board;
pub mod config;
pub mod tetromino;
pub mod theorems;
pub mod update;
