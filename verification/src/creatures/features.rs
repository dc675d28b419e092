//! Features a creature may have.

use vstd::prelude::*;

verus! {

/// A feature of a creature.
pub trait CreatureFeature {}

/// The creature flies.
#[derive(Debug, Clone, Copy, PartialEq, Eq, Structural)]
pub struct Flying;

impl CreatureFeature for Flying {}

} // verus!
