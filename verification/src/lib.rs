//! A shared three-by-three board on which two players place marks in turn.

pub mod board;
pub mod connection;
pub mod laws;
pub mod render;
pub mod session;
