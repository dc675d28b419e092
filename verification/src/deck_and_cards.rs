//! The first deck model: template cards, and instances of them in decks.

use vstd::prelude::*;

use crate::Entity;

verus! {

/// Marks a deck.
#[derive(Debug, Clone, Copy, PartialEq, Eq, Structural)]
pub struct Deck;

/// The cards of a deck.
pub struct DeckCards(pub Vec<Entity>);

impl DeckCards {
    /// A deck with no cards.
    pub fn default() -> (d: Self)
        ensures
            d.0@.len() == 0,
    {
        Self(Vec::new())
    }
}

/// The deck a card belongs to.
#[derive(Debug, Clone, Copy, PartialEq, Eq, Structural)]
pub struct InDeck(pub Entity);

/// Marks a card.
#[derive(Debug, Clone, Copy, PartialEq, Eq, Structural)]
pub struct Card;

/// A state a card can be in.
pub trait CardStateMarker {}

/// The card is a template that decks copy.
pub struct TemplateCard;
impl CardStateMarker for TemplateCard {}

/// The card lies in a draw pile.
pub struct InDrawPile;
impl CardStateMarker for InDrawPile {}

/// The card lies in a discard pile.
pub struct InDiscardPile;
impl CardStateMarker for InDiscardPile {}

/// The card lies in a hand.
pub struct InHand;
impl CardStateMarker for InHand {}

/// The card is out of combat.
pub struct OutOfCombat;
impl CardStateMarker for OutOfCombat {}

/// The state `S` of a card.
pub struct CardState<S: CardStateMarker> {
    pub _state: core::marker::PhantomData<S>,
}

impl<S: CardStateMarker> CardState<S> {
    pub fn new() -> (c: Self)
        ensures
            c == (CardState::<S> { _state: core::marker::PhantomData }),
    {
        Self { _state: core::marker::PhantomData }
    }
}

/// The names of the template cards the game starts with.
pub fn test_template_card_names() -> (v: Vec<&'static str>)
    ensures
        v@.map_values(|n: &'static str| n@) == seq![
            "Une carte"@, "Une autre"@, "toto"@, "tata"@, "tutu"@, "jean"@, "jeannot"@, "poissoj"@, "souris"@,
        ],
{
    let v = vec!["Une carte", "Une autre", "toto", "tata", "tutu", "jean", "jeannot", "poissoj", "souris"];
    assert(v@.map_values(|n: &'static str| n@) =~= seq![
        "Une carte"@, "Une autre"@, "toto"@, "tata"@, "tutu"@, "jean"@, "jeannot"@, "poissoj"@, "souris"@,
    ]);
    v
}

} // verus!
