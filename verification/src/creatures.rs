//! The kinds of creature, the pools their cards come from and their stats.

pub mod definitions;
pub mod features;
pub mod generation;
