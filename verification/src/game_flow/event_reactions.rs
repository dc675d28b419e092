//! Reactions of board cells to events: a spiky cell hurts whoever steps on
//! it.

use vstd::prelude::*;

use crate::Entity;

verus! {

/// The reactions attached to an entity.
pub struct Reactions(pub Vec<Entity>);

/// The entity a reaction is attached to.
#[derive(Debug, Clone, Copy, PartialEq, Eq, Structural)]
pub struct ReactionFor(pub Entity);

/// Marks a spiky cell.
#[derive(Debug, Clone, Copy, PartialEq, Eq, Structural)]
pub struct SpikyCell;

/// Damage a reaction deals.
#[derive(Debug, Clone, Copy, PartialEq, Eq, Structural)]
pub struct ApplyDamage(pub u32);

/// The damage a spiky cell's reaction deals.
pub fn spiky_cell_damage() -> (d: ApplyDamage)
    ensures
        d == ApplyDamage(2),
{
    ApplyDamage(2)
}

/// The reactions of a cell that react to the event, in order: those among
/// `reactions` that `reacting` holds.
pub fn applicable_reactions(reactions: &Reactions, reacting: &Vec<Entity>) -> (v: Vec<Entity>)
    ensures
        v@ == reactions.0@.filter(|e: Entity| reacting@.contains(e)),
{
    let mut v: Vec<Entity> = Vec::new();
    let mut i: usize = 0;
    while i < reactions.0.len()
        invariant
            0 <= i <= reactions.0@.len(),
            v@ == reactions.0@.take(i as int).filter(|e: Entity| reacting@.contains(e)),
        decreases reactions.0@.len() - i,
    {
        let e = reactions.0[i];
        let mut found = false;
        let mut k: usize = 0;
        while k < reacting.len()
            invariant
                0 <= k <= reacting@.len(),
                found == exists|j: int| 0 <= j < k && reacting@[j] == e,
            decreases reacting@.len() - k,
        {
            if reacting[k] == e {
                found = true;
            }
            k = k + 1;
        }
        proof {
            assert(reactions.0@.take(i + 1).drop_last() =~= reactions.0@.take(i as int));
            reveal_with_fuel(Seq::filter, 1);
        }
        if found {
            v.push(e);
        }
        i = i + 1;
    }
    assert(reactions.0@.take(reactions.0@.len() as int) =~= reactions.0@);
    v
}

} // verus!
