//! The flow of a battle: turn phases, drawing, and reactions to events.

pub mod event_reactions;
pub mod turns;
