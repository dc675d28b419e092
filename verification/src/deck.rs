//! Decks, cards and the builders that generate cards.

pub mod card_blueprints;
pub mod card_builders;
pub mod deck_and_cards;
