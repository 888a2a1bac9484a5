//! What the keeper reads of a unit, and what it writes back.
use vstd::prelude::*;
use crate::inventories::data_models::InventoryStatus;
use crate::object_id::ObjectId;

verus! {

/// A stored unit as the keeper reads it.
#[derive(Debug)]
pub struct Inventory {
    pub id: ObjectId,
    pub status: InventoryStatus,
    pub concurrency_stamp: String,
}

/// The state that the keeper resolves a unit to, guarded by the stamp that
/// the unit was read with.
#[derive(Debug)]
pub struct InventoryUpdate {
    pub id: ObjectId,
    pub status: InventoryStatus,
    pub concurrency_stamp: String,
}

} // verus!
