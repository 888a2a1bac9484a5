//! The requests and replies of the inventory operations.
use vstd::prelude::*;
use crate::inventories::constants::{GENERATION_BATCH_SIZE, RESERVATION_MAX_QUANTITY};
use crate::validation::{validation_result, ValidationError, ValidationErrors};

verus! {

/// A request to create units for an event.
#[derive(Debug)]
pub struct GenerateInventory {
    pub event_id: String,
    pub number_to_create: i32,
}

impl GenerateInventory {
    /// The rules that the request breaks: the event must be named, and at
    /// least one unit asked for.
    pub open spec fn violations(&self) -> Seq<ValidationError> {
        (if self.event_id@.len() < 1 {
            seq![ValidationError::EventIdEmpty]
        } else {
            seq![]
        }) + (if self.number_to_create < 1 {
            seq![ValidationError::NumberToCreateOutOfRange]
        } else {
            seq![]
        })
    }

    pub fn validate(&self) -> (r: Result<(), ValidationErrors>)
        ensures
            r is Ok <==> self.violations().len() == 0,
            r matches Err(e) ==> e.errors@ == self.violations(),
    {
        let mut errors: Vec<ValidationError> = Vec::new();
        if self.event_id.as_str().is_empty() {
            errors.push(ValidationError::EventIdEmpty);
        }
        if self.number_to_create < 1 {
            errors.push(ValidationError::NumberToCreateOutOfRange);
        }
        assert(errors@ =~= self.violations());
        validation_result(errors)
    }
}

/// The receipt of a generation request.
#[derive(Debug)]
pub struct GenerateInventoryResult {
    pub id: String,
    pub satus: String,
}

/// A request to create one batch of units.
#[derive(Debug)]
pub struct CreateInventoryBatch {
    pub event_id: String,
    pub quantity: i32,
    pub generate_inventory_id: Option<String>,
}

impl CreateInventoryBatch {
    /// The rules that the request breaks: the event must be named, and the
    /// quantity lie between one and the batch size.
    pub open spec fn violations(&self) -> Seq<ValidationError> {
        (if self.event_id@.len() < 1 {
            seq![ValidationError::EventIdEmpty]
        } else {
            seq![]
        }) + (if self.quantity < 1 || self.quantity > GENERATION_BATCH_SIZE {
            seq![ValidationError::QuantityOutOfRange]
        } else {
            seq![]
        })
    }

    pub fn validate(&self) -> (r: Result<(), ValidationErrors>)
        ensures
            r is Ok <==> self.violations().len() == 0,
            r matches Err(e) ==> e.errors@ == self.violations(),
    {
        let mut errors: Vec<ValidationError> = Vec::new();
        if self.event_id.as_str().is_empty() {
            errors.push(ValidationError::EventIdEmpty);
        }
        if self.quantity < 1 || self.quantity > GENERATION_BATCH_SIZE {
            errors.push(ValidationError::QuantityOutOfRange);
        }
        assert(errors@ =~= self.violations());
        validation_result(errors)
    }
}

/// A request to reserve units of an event.
#[derive(Debug)]
pub struct ReserveInventories {
    pub event_id: String,
    pub quantity: i32,
}

impl ReserveInventories {
    /// The rules that the request breaks: the event must be named, and the
    /// quantity lie between one and ten.
    pub open spec fn violations(&self) -> Seq<ValidationError> {
        (if self.event_id@.len() < 1 {
            seq![ValidationError::EventIdEmpty]
        } else {
            seq![]
        }) + (if self.quantity < 1 || self.quantity > RESERVATION_MAX_QUANTITY {
            seq![ValidationError::QuantityOutOfRange]
        } else {
            seq![]
        })
    }

    pub fn validate(&self) -> (r: Result<(), ValidationErrors>)
        ensures
            r is Ok <==> self.violations().len() == 0,
            r matches Err(e) ==> e.errors@ == self.violations(),
    {
        let mut errors: Vec<ValidationError> = Vec::new();
        if self.event_id.as_str().is_empty() {
            errors.push(ValidationError::EventIdEmpty);
        }
        if self.quantity < 1 || self.quantity > RESERVATION_MAX_QUANTITY {
            errors.push(ValidationError::QuantityOutOfRange);
        }
        assert(errors@ =~= self.violations());
        validation_result(errors)
    }
}

/// The receipts of a reservation.
#[derive(Debug)]
pub struct ReserveInventoriesResult {
    pub reserved_inventories: Vec<ReservedInventory>,
}

/// The receipt for one reserved unit.
#[derive(Debug)]
pub struct ReservedInventory {
    /// The identifier of the unit, in its text form.
    pub inventory_id: String,
    /// The end of the reservation, in milliseconds since the Unix epoch.
    pub reserved_until: i64,
}

impl ReservedInventory {
    pub fn new(inventory_id: String, reserved_until: i64) -> (r: Self)
        ensures
            r.inventory_id == inventory_id,
            r.reserved_until == reserved_until,
    {
        ReservedInventory { inventory_id, reserved_until }
    }
}

} // verus!
