//! Decks, the cards in them and the states a card goes through.

use vstd::prelude::*;

use crate::Entity;

verus! {

/// Marks a deck.
#[derive(Debug, Clone, Copy, PartialEq, Eq, Structural)]
pub struct Deck;

/// A request to generate a deck for an entity.
#[derive(Debug, Clone, Copy, PartialEq, Eq, Structural)]
pub struct DeckGenerationRequested {
    pub entity: Entity,
}

/// Marks the deck in use.
#[derive(Debug, Clone, Copy, PartialEq, Eq, Structural)]
pub struct ActiveDeck;

/// How many cards a deck's owner draws each turn.
#[derive(Debug, Clone, Copy, PartialEq, Eq, Structural)]
pub struct HandDrawData {
    pub cards_per_turn: u16,
}

impl HandDrawData {
    pub fn from_cards_per_turn(amount: u16) -> (d: Self)
        ensures
            d.cards_per_turn == amount,
    {
        Self { cards_per_turn: amount }
    }

    /// Five cards a turn.
    pub fn default() -> (d: Self)
        ensures
            d.cards_per_turn == 5,
    {
        Self { cards_per_turn: 5 }
    }
}

/// A card was drawn into a hand, at a place of the hand.
#[derive(Debug, Clone, Copy, PartialEq, Eq, Structural)]
pub struct CardDrawn {
    pub entity: Entity,
    pub card_hand_index: u16,
}

/// A hand was discarded.
#[derive(Debug, Clone, Copy, PartialEq, Eq, Structural)]
pub struct HandDiscarded;

/// A card was discarded.
#[derive(Debug, Clone, Copy, PartialEq, Eq, Structural)]
pub struct CardDiscarded {
    pub entity: Entity,
}

/// A request to draw a hand from a deck.
#[derive(Debug, Clone, Copy, PartialEq, Eq, Structural)]
pub struct DrawHand {
    pub entity: Entity,
}

impl DrawHand {
    pub fn from_deck_entity(deck_entity: Entity) -> (d: Self)
        ensures
            d.entity == deck_entity,
    {
        Self { entity: deck_entity }
    }
}

/// The cards of a deck.
pub struct CardPile {
    pub cards: Vec<Entity>,
}

impl CardPile {
    /// An empty pile.
    pub fn default() -> (p: Self)
        ensures
            p.cards@.len() == 0,
    {
        Self { cards: Vec::new() }
    }
}

/// The deck a card belongs to.
#[derive(Debug, Clone, Copy, PartialEq, Eq, Structural)]
pub struct InDeck(pub Entity);

/// Marks a card.
#[derive(Debug, Clone, Copy, PartialEq, Eq, Structural)]
pub struct Card {}

impl Card {
    pub fn new() -> (c: Self)
        ensures
            c == (Card {}),
    {
        Self {}
    }
}

/// A state a card can be in.
pub trait CardStateMarker {}

/// The card lies in a draw pile.
pub struct InDrawPile;
impl CardStateMarker for InDrawPile {}

/// The card lies in a discard pile.
pub struct InDiscardPile;
impl CardStateMarker for InDiscardPile {}

/// The card lies in a hand.
pub struct InHand;
impl CardStateMarker for InHand {}

/// The card is out of combat.
pub struct UnassignedDeckState;
impl CardStateMarker for UnassignedDeckState {}

/// The state `S` of a card.
pub struct CardState<S: CardStateMarker> {
    pub _state: core::marker::PhantomData<S>,
}

impl<S: CardStateMarker> CardState<S> {
    pub fn new() -> (c: Self)
        ensures
            c == (CardState::<S> { _state: core::marker::PhantomData }),
    {
        Self { _state: core::marker::PhantomData }
    }
}

} // verus!
