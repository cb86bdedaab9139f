//! Authoritative-server core for a real-time multiplayer unit simulation.
//!
//! The library holds the verified game logic: identity generation, the
//! shared world model, the session handshake, command ingestion and the
//! fixed-tick world simulation. Transport, threading and wire encoding
//! live outside the library and only hand plain values in and out.
//!
//! Coordinates are whole world units held in `i64`; the surrounding
//! transport layer truncates its real-valued wire coordinates to these
//! units on the way in.

pub mod command;
pub mod ids;
pub mod server;
pub mod session;
pub mod sim;
pub mod state;
