//! Requests to move a playing entity across the grid.

use vstd::prelude::*;

use crate::Entity;

verus! {

/// A request to move an entity to a cell.
#[derive(Debug, Clone, Copy, PartialEq, Eq, Structural)]
pub struct MoveRequest {
    pub entity: Entity,
    pub destination_cell: Entity,
}

impl MoveRequest {
    pub fn new(entity: Entity, destination_cell: Entity) -> (r: Self)
        ensures
            r.entity == entity,
            r.destination_cell == destination_cell,
    {
        Self { entity, destination_cell }
    }
}

/// A request to show the path an entity would take to a cell.
#[derive(Debug, Clone, Copy, PartialEq, Eq, Structural)]
pub struct PreviewPathRequest {
    pub entity: Entity,
    pub destination_cell: Entity,
}

impl PreviewPathRequest {
    pub fn new(entity: Entity, destination_cell: Entity) -> (r: Self)
        ensures
            r.entity == entity,
            r.destination_cell == destination_cell,
    {
        Self { entity, destination_cell }
    }
}

} // verus!
