//! The requests and replies of the basket operations.
use vstd::prelude::*;
use crate::validation::{validation_result, ValidationError, ValidationErrors};

verus! {

/// A request for a basket: what to reserve, item by item.
#[derive(Debug)]
pub struct CreateBasketRequest {
    pub add_basket_item_request: Vec<AddBasketItemRequest>,
}

impl CreateBasketRequest {
    /// The request carries no rule of its own; its items are not looked
    /// into.
    pub fn validate(&self) -> (r: Result<(), ValidationErrors>)
        ensures
            r is Ok,
    {
        Ok(())
    }
}

/// One item of a basket request: units of one event.
#[derive(Debug)]
pub struct AddBasketItemRequest {
    pub event_id: String,
    pub quantity: i32,
}

impl AddBasketItemRequest {
    /// The rules that the item breaks: the event must be named, and at least
    /// one unit asked for.
    pub open spec fn violations(&self) -> Seq<ValidationError> {
        (if self.event_id@.len() < 1 {
            seq![ValidationError::EventIdEmpty]
        } else {
            seq![]
        }) + (if self.quantity < 1 {
            seq![ValidationError::QuantityOutOfRange]
        } else {
            seq![]
        })
    }

    pub fn validate(&self) -> (r: Result<(), ValidationErrors>)
        ensures
            r is Ok <==> self.violations().len() == 0,
            r matches Err(e) ==> e.errors@ == self.violations(),
    {
        let mut errors: Vec<ValidationError> = Vec::new();
        if self.event_id.as_str().is_empty() {
            errors.push(ValidationError::EventIdEmpty);
        }
        if self.quantity < 1 {
            errors.push(ValidationError::QuantityOutOfRange);
        }
        assert(errors@ =~= self.violations());
        validation_result(errors)
    }
}

/// The receipt of a created basket.
#[derive(Debug)]
pub struct CreateBasketResult {
    pub basket_id: String,
}

/// A basket as it is shown. Times are in milliseconds since the Unix epoch.
#[derive(Debug)]
pub struct Basket {
    pub id: String,
    pub original_order_id: Option<String>,
    pub valid_until: i64,
    pub basket_items: Vec<BasketItem>,
    pub payments: Vec<BasketPayment>,
    pub price: i32,
}

/// One item of a basket as it is shown.
#[derive(Debug)]
pub struct BasketItem {
    pub basketed_inventories: Vec<BasketedInventory>,
    pub price: i32,
}

/// One reserved unit of a basket as it is shown.
#[derive(Debug)]
pub struct BasketedInventory {
    pub event_id: String,
    pub name: String,
    pub inventory_id: String,
    pub reserved_until: i64,
}

/// One payment of a basket as it is shown.
#[derive(Debug)]
pub struct BasketPayment {
    pub id: String,
    pub amount: i32,
    pub currency: String,
    pub provider: String,
    pub status: String,
    pub created_at: i64,
    pub payment_type: String,
}

/// A request to purchase a basket.
#[derive(Debug)]
pub struct PurchaseBasketRequest {
    pub basket_id: String,
}

impl PurchaseBasketRequest {
    /// The rules that the request breaks: the basket must be named.
    pub open spec fn violations(&self) -> Seq<ValidationError> {
        if self.basket_id@.len() < 1 {
            seq![ValidationError::BasketIdEmpty]
        } else {
            seq![]
        }
    }

    pub fn validate(&self) -> (r: Result<(), ValidationErrors>)
        ensures
            r is Ok <==> self.violations().len() == 0,
            r matches Err(e) ==> e.errors@ == self.violations(),
    {
        let mut errors: Vec<ValidationError> = Vec::new();
        if self.basket_id.as_str().is_empty() {
            errors.push(ValidationError::BasketIdEmpty);
        }
        assert(errors@ =~= self.violations());
        validation_result(errors)
    }
}

/// The receipt of a purchase.
#[derive(Debug)]
pub struct PurchaseBasketResult {
    pub order_id: String,
}

} // verus!
