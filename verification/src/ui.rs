//! The text shown on cards, and the markers of the user interface.

use vstd::prelude::*;

verus! {

/// A section of the text on a card.
pub enum TextSection {
    Title(String),
    Subtitle(String),
    Description(String),
}

impl TextSection {
    /// The text of the section, whatever its kind.
    pub open spec fn content(&self) -> Seq<char> {
        match self {
            TextSection::Title(s) => s@,
            TextSection::Subtitle(s) => s@,
            TextSection::Description(s) => s@,
        }
    }

    /// Whether two sections are of the same kind.
    pub open spec fn same_kind(&self, other: &TextSection) -> bool {
        match (self, other) {
            (TextSection::Title(_), TextSection::Title(_)) => true,
            (TextSection::Subtitle(_), TextSection::Subtitle(_)) => true,
            (TextSection::Description(_), TextSection::Description(_)) => true,
            _ => false,
        }
    }

    pub fn text(&self) -> (t: &str)
        ensures
            t@ == self.content(),
    {
        match self {
            TextSection::Title(title_str) => title_str.as_str(),
            TextSection::Subtitle(subtitle_str) => subtitle_str.as_str(),
            TextSection::Description(desc_str) => desc_str.as_str(),
        }
    }

    /// A copy of the section.
    pub fn copy_section(&self) -> (c: TextSection)
        ensures
            c.same_kind(self),
            c.content() == self.content(),
    {
        match self {
            TextSection::Title(s) => TextSection::Title(s.clone()),
            TextSection::Subtitle(s) => TextSection::Subtitle(s.clone()),
            TextSection::Description(s) => TextSection::Description(s.clone()),
        }
    }
}

/// The text on a card, section by section.
pub struct CardUiTextContent {
    pub sections: Vec<TextSection>,
}

impl CardUiTextContent {
    /// A copy of the sections, in order.
    pub fn copies_sections(&self) -> (v: Vec<TextSection>)
        ensures
            v@.len() == self.sections@.len(),
            forall|i: int| 0 <= i < v@.len() ==> (#[trigger] v@[i]).same_kind(&self.sections@[i])
                && v@[i].content() == self.sections@[i].content(),
    {
        let mut v: Vec<TextSection> = Vec::new();
        let mut i: usize = 0;
        while i < self.sections.len()
            invariant
                0 <= i <= self.sections@.len(),
                v@.len() == i,
                forall|j: int| 0 <= j < i ==> (#[trigger] v@[j]).same_kind(&self.sections@[j])
                    && v@[j].content() == self.sections@[j].content(),
            decreases self.sections@.len() - i,
        {
            v.push(self.sections[i].copy_section());
            i = i + 1;
        }
        v
    }
}

/// Marks the root of a card's interface.
#[derive(Debug, Clone, Copy, PartialEq, Eq, Structural)]
pub struct CardUiRoot;

/// Marks the camera the interface is placed for.
#[derive(Debug, Clone, Copy, PartialEq, Eq, Structural)]
pub struct UiCameraMarker;

/// Marks the camera that renders card textures.
#[derive(Debug, Clone, Copy, PartialEq, Eq, Structural)]
pub struct CardTextureCamera;

/// Marks an entity that runs tweens.
#[derive(Debug, Clone, Copy, PartialEq, Eq, Structural)]
pub struct TweenAnimator;

/// The level of a piece of interface text.
#[derive(Debug, Clone, Copy, PartialEq, Eq, Structural)]
pub enum UiDataLevel {
    Title,
    Subtitle,
    Text,
}

/// A piece of interface text and its level.
#[derive(Debug, Clone, Copy)]
pub struct UiData {
    pub level: UiDataLevel,
    pub text: &'static str,
}

/// Anything that may show text in the interface.
pub trait UiDataContainer {
    fn get_ui_data(&self) -> Option<UiData>;
}

} // verus!
