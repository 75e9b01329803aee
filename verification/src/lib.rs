//! Deterministic BattleTris rules, state and wire formats.
//!
//! The library owns gameplay behavior that must be replayable: boards, pieces,
//! line clears, funds, weapons, bazaar flow, computer-opponent primitives, the
//! byte layouts of both network protocols, lobby bookkeeping and the rank
//! formula. Sockets, databases and serialization frameworks live outside it.

pub mod cell;
pub mod rng;
pub mod board;
pub mod score;
pub mod weapons;
pub mod piece;
pub mod wire;
pub mod protocol;
pub mod piece_generator;
pub mod recon;
pub mod game;
pub mod ai;
pub mod text;
pub mod fixtures;
pub mod db;
pub mod server;
pub mod ppm;
