//! The stored records: inventory units and generation requests.
use vstd::prelude::*;
use crate::helpers::str_eq;
use crate::inventories::constants::{
    GENERATE_INVENTORY_STATUS_COMPLETED, GENERATE_INVENTORY_STATUS_PENDING,
    INVENTORY_STATUS_AVAILABLE, INVENTORY_STATUS_RESERVED, INVENTORY_STATUS_SOLD,
};
use crate::object_id::ObjectId;

verus! {

/// The state of an inventory unit. `Sold` is terminal.
#[derive(Clone, Copy, Debug, PartialEq, Eq, Structural)]
pub enum InventoryStatus {
    Available,
    Reserved,
    Sold,
}

impl InventoryStatus {
    /// The name of the state in stored records.
    pub open spec fn name(self) -> Seq<char> {
        match self {
            InventoryStatus::Available => INVENTORY_STATUS_AVAILABLE@,
            InventoryStatus::Reserved => INVENTORY_STATUS_RESERVED@,
            InventoryStatus::Sold => INVENTORY_STATUS_SOLD@,
        }
    }

    /// The state that a name stands for, if any.
    pub open spec fn from_name(name: Seq<char>) -> Option<InventoryStatus> {
        if name == INVENTORY_STATUS_AVAILABLE@ {
            Some(InventoryStatus::Available)
        } else if name == INVENTORY_STATUS_RESERVED@ {
            Some(InventoryStatus::Reserved)
        } else if name == INVENTORY_STATUS_SOLD@ {
            Some(InventoryStatus::Sold)
        } else {
            None
        }
    }

    pub fn as_str(&self) -> (r: &'static str)
        ensures
            r@ == self.name(),
    {
        match self {
            InventoryStatus::Available => INVENTORY_STATUS_AVAILABLE,
            InventoryStatus::Reserved => INVENTORY_STATUS_RESERVED,
            InventoryStatus::Sold => INVENTORY_STATUS_SOLD,
        }
    }

    pub fn to_string(&self) -> (r: String)
        ensures
            r@ == self.name(),
    {
        self.as_str().to_owned()
    }

    /// Reads a state from its name.
    pub fn parse(name: &str) -> (r: Option<InventoryStatus>)
        ensures
            r == Self::from_name(name@),
    {
        if str_eq(name, INVENTORY_STATUS_AVAILABLE) {
            Some(InventoryStatus::Available)
        } else if str_eq(name, INVENTORY_STATUS_RESERVED) {
            Some(InventoryStatus::Reserved)
        } else if str_eq(name, INVENTORY_STATUS_SOLD) {
            Some(InventoryStatus::Sold)
        } else {
            None
        }
    }
}

/// Every state is read back from its own name.
pub proof fn law_status_names_are_read_back(status: InventoryStatus)
    ensures
        InventoryStatus::from_name(status.name()) == Some(status),
{
    reveal_strlit("Available");
    reveal_strlit("Reserved");
    reveal_strlit("Sold");
    assert(INVENTORY_STATUS_AVAILABLE@[0] == 'A');
    assert(INVENTORY_STATUS_RESERVED@[0] == 'R');
    assert(INVENTORY_STATUS_SOLD@[0] == 'S');
}

/// One purchasable unit of an event.
#[derive(Debug)]
pub struct Inventory {
    /// Given by the store when the unit is inserted.
    pub id: Option<ObjectId>,
    pub event_id: ObjectId,
    pub status: InventoryStatus,
    /// Milliseconds since the Unix epoch. Meaningful only while `Reserved`.
    pub reserved_until: i64,
    /// The generation request that the unit was created for.
    pub generate_inventory_id: Option<ObjectId>,
    /// Replaced on every accepted write.
    pub concurrency_stamp: String,
}

impl Clone for Inventory {
    fn clone(&self) -> (r: Self)
        ensures
            r == *self,
    {
        Inventory {
            id: self.id,
            event_id: self.event_id,
            status: self.status,
            reserved_until: self.reserved_until,
            generate_inventory_id: self.generate_inventory_id,
            concurrency_stamp: self.concurrency_stamp.clone(),
        }
    }
}

impl Inventory {
    /// A unit that no reservation holds at `now`: it is `Available`, or its
    /// reservation has lapsed.
    pub open spec fn is_unreserved(self, now: int) -> bool {
        self.status == InventoryStatus::Available || (self.status == InventoryStatus::Reserved
            && self.reserved_until < now)
    }

    /// A unit whose reservation has lapsed at `now`.
    pub open spec fn is_lapsed(self, now: int) -> bool {
        self.status == InventoryStatus::Reserved && self.reserved_until < now
    }
}

/// The state of a generation request.
#[derive(Clone, Copy, Debug, PartialEq, Eq, Structural)]
pub enum GenerateInventoryStatus {
    Pending,
    Completed,
}

impl GenerateInventoryStatus {
    pub open spec fn name(self) -> Seq<char> {
        match self {
            GenerateInventoryStatus::Pending => GENERATE_INVENTORY_STATUS_PENDING@,
            GenerateInventoryStatus::Completed => GENERATE_INVENTORY_STATUS_COMPLETED@,
        }
    }

    pub open spec fn from_name(name: Seq<char>) -> Option<GenerateInventoryStatus> {
        if name == GENERATE_INVENTORY_STATUS_PENDING@ {
            Some(GenerateInventoryStatus::Pending)
        } else if name == GENERATE_INVENTORY_STATUS_COMPLETED@ {
            Some(GenerateInventoryStatus::Completed)
        } else {
            None
        }
    }

    pub fn as_str(&self) -> (r: &'static str)
        ensures
            r@ == self.name(),
    {
        match self {
            GenerateInventoryStatus::Pending => GENERATE_INVENTORY_STATUS_PENDING,
            GenerateInventoryStatus::Completed => GENERATE_INVENTORY_STATUS_COMPLETED,
        }
    }

    pub fn to_string(&self) -> (r: String)
        ensures
            r@ == self.name(),
    {
        self.as_str().to_owned()
    }

    pub fn parse(name: &str) -> (r: Option<GenerateInventoryStatus>)
        ensures
            r == Self::from_name(name@),
    {
        if str_eq(name, GENERATE_INVENTORY_STATUS_PENDING) {
            Some(GenerateInventoryStatus::Pending)
        } else if str_eq(name, GENERATE_INVENTORY_STATUS_COMPLETED) {
            Some(GenerateInventoryStatus::Completed)
        } else {
            None
        }
    }
}

/// The receipt of a request to create units for an event.
#[derive(Clone, Copy, Debug)]
pub struct GenerateInventory {
    /// Given by the store when the request is inserted.
    pub id: Option<ObjectId>,
    pub event_id: ObjectId,
    pub number_to_create: i32,
    pub status: GenerateInventoryStatus,
    /// Milliseconds since the Unix epoch.
    pub created_at: i64,
}

} // verus!
