//! The base statistics of the creatures that play.

pub mod players;
