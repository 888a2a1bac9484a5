//! Names of the states as they are written in stored records and replies,
//! and the limits of the inventory operations.
use vstd::prelude::*;

verus! {

pub const INVENTORY_STATUS_AVAILABLE: &'static str = "Available";

pub const INVENTORY_STATUS_RESERVED: &'static str = "Reserved";

pub const INVENTORY_STATUS_SOLD: &'static str = "Sold";

pub const GENERATE_INVENTORY_STATUS_PENDING: &'static str = "pending";

pub const GENERATE_INVENTORY_STATUS_COMPLETED: &'static str = "completed";

/// How long a reservation holds a unit, in milliseconds: ninety minutes.
pub const RESERVATION_WINDOW_MILLIS: i64 = 5_400_000;

/// The largest number of units that one batch creates.
pub const GENERATION_BATCH_SIZE: i32 = 1000;

/// The largest number of units that one reservation request may ask for.
pub const RESERVATION_MAX_QUANTITY: i32 = 10;

} // verus!
