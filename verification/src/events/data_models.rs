//! The stored record of an event.
use vstd::prelude::*;
use crate::object_id::ObjectId;

verus! {

/// An event. Times are in milliseconds since the Unix epoch.
#[derive(Debug)]
pub struct Event {
    /// Given by the store when the event is inserted.
    pub id: Option<ObjectId>,
    pub name: String,
    pub price: i32,
    pub start_sale_date_time: i64,
    pub end_sale_date_time: i64,
    pub start_date_time: i64,
    pub end_date_time: i64,
}

impl Clone for Event {
    fn clone(&self) -> (r: Self)
        ensures
            r == *self,
    {
        Event {
            id: self.id,
            name: self.name.clone(),
            price: self.price,
            start_sale_date_time: self.start_sale_date_time,
            end_sale_date_time: self.end_sale_date_time,
            start_date_time: self.start_date_time,
            end_date_time: self.end_date_time,
        }
    }
}

} // verus!
