//! What the server tells clients about a battle.

use vstd::prelude::*;

use crate::board::{BattleData, BattleTick};

verus! {

/// When a card was last cast and how many steps passed since.
#[derive(Debug, Clone, Copy, PartialEq, Eq, Structural)]
pub struct CastData {
    pub ticks_since_cast: u32,
    pub cast_at: u32,
}

/// Marks an entity whose component changes are kept as a history.
#[derive(Debug, Clone, Copy, PartialEq, Eq, Default, Structural)]
pub struct SaveHistory;

/// The ticking of a battle just started.
#[derive(Debug, Clone, Copy, PartialEq, Eq, Structural)]
pub struct BattleTickingJustStarted;

/// The clients were told that the battle ticks.
#[derive(Debug, Clone, Copy, PartialEq, Eq, Structural)]
pub struct ClientBattleTickingInitialized;

/// The battle's tick moved on.
#[derive(Debug, Clone, Copy, PartialEq, Eq, Structural)]
pub struct BattleTickIncremented(pub BattleTick);

/// Whether the server marks the battle's ticking as initialized when the
/// battle data changed: once a battle runs, the first time only.
pub fn should_initialize_ticking(battle_data: &BattleData, already_initialized: bool) -> (b: bool)
    ensures
        b == (battle_data is InCombat && !already_initialized),
{
    match battle_data {
        BattleData::NoBattle => false,
        BattleData::InCombat { .. } => !already_initialized,
    }
}

/// The battle tick that a client learns from the data the server sent with a
/// replication message: the tick of a running battle, nothing otherwise.
pub fn received_battle_tick(data: &BattleData) -> (t: Option<BattleTick>)
    ensures
        t == (match *data {
            BattleData::NoBattle => None,
            BattleData::InCombat { battle_tick } => Some(battle_tick),
        }),
{
    match data {
        BattleData::NoBattle => None,
        BattleData::InCombat { battle_tick } => Some(*battle_tick),
    }
}

} // verus!
