//! Requests to generate creatures.

use vstd::prelude::*;

use crate::creatures::definitions::CreatureKind;
use crate::Entity;

verus! {

/// A request to make an entity a creature of a kind.
#[derive(Debug, Clone, Copy, PartialEq, Eq, Structural)]
pub struct CreatureGenerationRequested {
    pub entity: Entity,
    pub kind: CreatureKind,
}

impl CreatureGenerationRequested {
    pub fn new(entity: Entity, kind: CreatureKind) -> (r: Self)
        ensures
            r.entity == entity,
            r.kind == kind,
    {
        Self { entity, kind }
    }
}

} // verus!
