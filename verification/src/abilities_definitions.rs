//! The abilities the game registers as templates.

pub mod definitions;
