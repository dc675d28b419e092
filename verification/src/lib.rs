//! Card-battle game rules: decks and piles of cards, card effects, turn
//! phases and random card generation, stated and proved with Verus.

use vstd::prelude::*;

pub mod abilities;
pub mod abilities_definitions;
pub mod actions;
pub mod board;
pub mod combat;
pub mod creatures;
pub mod deck;
pub mod deck_and_cards;
pub mod effects;
pub mod exs;
pub mod game_flow;
pub mod grid_abilities_backend;
pub mod melee;
pub mod movement;
pub mod network;
pub mod rng;
pub mod states;
pub mod stats;
pub mod tiles_templates;
pub mod ui;
pub mod utils;

verus! {

/// The identity of a game object: a card, a pile, a player or an effect.
pub type Entity = u64;

} // verus!
