//! The kinds of board cell.

use vstd::prelude::*;

verus! {

/// A grass cell.
#[derive(Debug, Clone, Copy, PartialEq, Eq, Structural)]
pub struct BaseGrassCell;

/// A rock cell.
#[derive(Debug, Clone, Copy, PartialEq, Eq, Structural)]
pub struct BaseRockCell;

/// A water cell; water cells are humid.
#[derive(Debug, Clone, Copy, PartialEq, Eq, Structural)]
pub struct BaseWaterCell;

/// A brittle cell.
#[derive(Debug, Clone, Copy, PartialEq, Eq, Structural)]
pub struct Brittle;

/// A cell that the status `T` cannot affect.
pub struct InvulnerableTo<T> {
    pub _status: core::marker::PhantomData<T>,
}

/// Builds grid cells.
pub struct GricCellBuilder {}

} // verus!
