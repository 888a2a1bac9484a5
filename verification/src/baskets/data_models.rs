//! The stored record of a basket.
use vstd::prelude::*;
use crate::object_id::ObjectId;

verus! {

/// A basket. It is valid until `valid_until`, in milliseconds since the Unix
/// epoch, and no longer than the reservations of its units hold.
#[derive(Debug)]
pub struct Basket {
    /// Given by the store when the basket is inserted.
    pub id: Option<ObjectId>,
    pub valid_until: i64,
    pub basket_items: Vec<BasketItem>,
}

impl Basket {
    pub fn new(valid_until: i64, basket_items: Vec<BasketItem>) -> (r: Self)
        ensures
            r.id is None,
            r.valid_until == valid_until,
            r.basket_items == basket_items,
    {
        Basket { id: None, valid_until, basket_items }
    }
}

/// One item of a basket: a reserved unit and its price.
#[derive(Debug)]
pub struct BasketItem {
    pub basketed_inventories: Vec<BasketedInventory>,
    pub price: i32,
}

/// One reserved unit of a basket.
#[derive(Debug)]
pub struct BasketedInventory {
    pub event_id: String,
    pub name: String,
    pub inventory_id: String,
    /// The end of the reservation, in milliseconds since the Unix epoch.
    pub reserved_until: i64,
}

impl BasketedInventory {
    pub fn new(event_id: String, name: String, inventory_id: String, reserved_until: i64) -> (r:
        Self)
        ensures
            r.event_id == event_id,
            r.name == name,
            r.inventory_id == inventory_id,
            r.reserved_until == reserved_until,
    {
        BasketedInventory { event_id, name, inventory_id, reserved_until }
    }
}

impl Clone for BasketedInventory {
    fn clone(&self) -> (r: Self)
        ensures
            r == *self,
    {
        BasketedInventory {
            event_id: self.event_id.clone(),
            name: self.name.clone(),
            inventory_id: self.inventory_id.clone(),
            reserved_until: self.reserved_until,
        }
    }
}

} // verus!
