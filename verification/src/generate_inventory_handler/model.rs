//! The change notification that starts the worker, and the records it
//! exchanges.
use vstd::prelude::*;
use crate::inventories::data_models::{GenerateInventoryStatus, InventoryStatus};
use crate::inventories::data_transfer_objects::CreateInventoryBatch as CreateInventoryBatchRequest;
use crate::object_id::ObjectId;

verus! {

/// A change notification for a stored generation request.
#[derive(Debug)]
pub struct Event {
    pub version: String,
    pub id: String,
    pub detail_type: String,
    pub source: String,
    pub account: String,
    pub time: String,
    pub region: String,
    pub resources: Vec<String>,
    pub detail: Detail,
}

#[derive(Debug)]
pub struct Detail {
    pub id: Id,
    pub operation_type: String,
    pub cluster_time: ClusterTime,
    pub wall_time: String,
    pub full_document: FullDocument,
    pub ns: Ns,
    pub document_key: DocumentKey,
}

#[derive(Clone, Copy, Debug)]
pub struct ClusterTime {
    pub t: i64,
    pub i: i64,
}

#[derive(Debug)]
pub struct DocumentKey {
    pub id: String,
}

/// The generation request as the notification carries it.
#[derive(Debug)]
pub struct FullDocument {
    pub id: String,
    pub event_id: String,
    pub number_to_create: i64,
    pub status: String,
    pub created_at: String,
}

#[derive(Debug)]
pub struct Id {
    pub data: String,
}

#[derive(Debug)]
pub struct Ns {
    pub db: String,
    pub coll: String,
}

/// A stored unit as the worker counts it.
#[derive(Clone, Copy, Debug)]
pub struct Inventory {
    pub id: Option<ObjectId>,
    pub event_id: ObjectId,
    pub status: InventoryStatus,
}

/// A stored generation request as the worker reads it.
#[derive(Clone, Copy, Debug)]
pub struct GenerateInventory {
    pub id: Option<ObjectId>,
    pub event_id: ObjectId,
    pub number_to_create: i32,
    pub status: GenerateInventoryStatus,
}

/// The batch request that the worker sends to the inventory service.
#[derive(Debug)]
pub struct CreateInventoryBatch {
    pub event_id: String,
    pub quantity: i32,
    pub generate_inventory_id: Option<String>,
}

impl CreateInventoryBatch {
    /// The request as the inventory service takes it.
    pub fn into_request(self) -> (r: CreateInventoryBatchRequest)
        ensures
            r.event_id == self.event_id,
            r.quantity == self.quantity,
            r.generate_inventory_id == self.generate_inventory_id,
    {
        CreateInventoryBatchRequest {
            event_id: self.event_id,
            quantity: self.quantity,
            generate_inventory_id: self.generate_inventory_id,
        }
    }
}

} // verus!
