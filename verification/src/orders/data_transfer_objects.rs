//! An order transaction as it is shown: identifiers in their text form.
use vstd::prelude::*;

verus! {

#[derive(Debug)]
pub struct OrderTransaction {
    pub id: String,
    pub order_id: String,
    pub transaction_type: String,
    pub basket_id: Option<String>,
    pub items: Vec<OrderTransactionItem>,
    pub payments: Vec<OrderTransactionPayment>,
    /// Milliseconds since the Unix epoch.
    pub created_at: i64,
}

#[derive(Debug)]
pub struct OrderTransactionPayment {
    pub id: String,
    pub payment_id: String,
    pub amount: i32,
    pub currency: String,
    pub provider: String,
    pub status: String,
    pub payment_type: String,
    /// Milliseconds since the Unix epoch.
    pub created_at: i64,
}

#[derive(Debug)]
pub struct OrderTransactionItem {
    pub id: String,
    /// Milliseconds since the Unix epoch.
    pub created_at: i64,
    pub price: i32,
    pub inventories: Vec<OrderTransactionItemInventory>,
}

#[derive(Debug)]
pub struct OrderTransactionItemInventory {
    pub id: String,
    pub inventory_id: String,
    pub event_id: String,
    pub name: String,
    /// Milliseconds since the Unix epoch.
    pub created_at: i64,
}

} // verus!
