//! Speed, strength and reach of a creature.

use vstd::prelude::*;

verus! {

/// How fast a creature acts.
#[derive(Debug, Clone, Copy, PartialEq, Eq, Default, Structural)]
pub struct Speed {
    pub current: i32,
}

impl Speed {
    pub fn new(val: i32) -> (s: Self)
        ensures
            s.current == val,
    {
        Self { current: val }
    }
}

/// How hard a creature hits.
#[derive(Debug, Clone, Copy, PartialEq, Eq, Default, Structural)]
pub struct Strength {
    pub current: i32,
}

impl Strength {
    pub fn new(val: i32) -> (s: Self)
        ensures
            s.current == val,
    {
        Self { current: val }
    }
}

/// How far a creature reaches in melee.
#[derive(Debug, Clone, Copy, PartialEq, Eq, Default, Structural)]
pub struct MeleeRange {
    pub current: i32,
}

impl MeleeRange {
    pub fn new(val: i32) -> (s: Self)
        ensures
            s.current == val,
    {
        Self { current: val }
    }
}

/// How far a creature reaches at range.
#[derive(Debug, Clone, Copy, PartialEq, Eq, Default, Structural)]
pub struct RangedRange {
    pub current: i32,
}

impl RangedRange {
    pub fn new(val: i32) -> (s: Self)
        ensures
            s.current == val,
    {
        Self { current: val }
    }
}

} // verus!
