//! The stored record of a purchase. A unit whose identifier appears in a
//! stored order transaction is sold.
use vstd::prelude::*;
use crate::object_id::ObjectId;

verus! {

/// One unit of a purchased item.
#[derive(Debug)]
pub struct OrderTransactionItemInventory {
    pub id: String,
    pub inventory_id: ObjectId,
    pub event_id: ObjectId,
    pub name: String,
    /// Milliseconds since the Unix epoch.
    pub created_at: i64,
}

/// What an `OrderTransactionItemInventory` holds.
pub struct OrderTransactionItemInventoryView {
    pub id: Seq<char>,
    pub inventory_id: ObjectId,
    pub event_id: ObjectId,
    pub name: Seq<char>,
    pub created_at: i64,
}

impl View for OrderTransactionItemInventory {
    type V = OrderTransactionItemInventoryView;

    open spec fn view(&self) -> OrderTransactionItemInventoryView {
        OrderTransactionItemInventoryView {
            id: self.id@,
            inventory_id: self.inventory_id,
            event_id: self.event_id,
            name: self.name@,
            created_at: self.created_at,
        }
    }
}

impl Clone for OrderTransactionItemInventory {
    fn clone(&self) -> (r: Self)
        ensures
            r@ == self@,
    {
        OrderTransactionItemInventory {
            id: self.id.clone(),
            inventory_id: self.inventory_id,
            event_id: self.event_id,
            name: self.name.clone(),
            created_at: self.created_at,
        }
    }
}

/// One line of a purchase.
#[derive(Debug)]
pub struct OrderTransactionItem {
    pub id: String,
    /// Milliseconds since the Unix epoch.
    pub created_at: i64,
    pub price: i32,
    pub inventories: Vec<OrderTransactionItemInventory>,
}

/// What an `OrderTransactionItem` holds.
pub struct OrderTransactionItemView {
    pub id: Seq<char>,
    pub created_at: i64,
    pub price: i32,
    pub inventories: Seq<OrderTransactionItemInventoryView>,
}

impl View for OrderTransactionItem {
    type V = OrderTransactionItemView;

    open spec fn view(&self) -> OrderTransactionItemView {
        OrderTransactionItemView {
            id: self.id@,
            created_at: self.created_at,
            price: self.price,
            inventories: Seq::new(self.inventories@.len(), |j: int| self.inventories@[j]@),
        }
    }
}

impl Clone for OrderTransactionItem {
    fn clone(&self) -> (r: Self)
        ensures
            r@ == self@,
    {
        let mut inventories: Vec<OrderTransactionItemInventory> = Vec::new();
        let mut j: usize = 0;
        while j < self.inventories.len()
            invariant
                j <= self.inventories@.len(),
                inventories@.len() == j,
                forall|k: int| 0 <= k < j ==> (#[trigger] inventories@[k])@
                    == self.inventories@[k]@,
            decreases self.inventories@.len() - j,
        {
            inventories.push(self.inventories[j].clone());
            j += 1;
        }
        let r = OrderTransactionItem {
            id: self.id.clone(),
            created_at: self.created_at,
            price: self.price,
            inventories,
        };
        assert(r@.inventories =~= self@.inventories);
        r
    }
}

/// One payment of a purchase.
#[derive(Debug)]
pub struct OrderTransactionPayment {
    pub id: String,
    pub payment_id: ObjectId,
    pub amount: i32,
    pub currency: String,
    pub provider: String,
    pub status: String,
    pub payment_type: String,
    /// Milliseconds since the Unix epoch.
    pub created_at: i64,
}

/// What an `OrderTransactionPayment` holds.
pub struct OrderTransactionPaymentView {
    pub id: Seq<char>,
    pub payment_id: ObjectId,
    pub amount: i32,
    pub currency: Seq<char>,
    pub provider: Seq<char>,
    pub status: Seq<char>,
    pub payment_type: Seq<char>,
    pub created_at: i64,
}

impl View for OrderTransactionPayment {
    type V = OrderTransactionPaymentView;

    open spec fn view(&self) -> OrderTransactionPaymentView {
        OrderTransactionPaymentView {
            id: self.id@,
            payment_id: self.payment_id,
            amount: self.amount,
            currency: self.currency@,
            provider: self.provider@,
            status: self.status@,
            payment_type: self.payment_type@,
            created_at: self.created_at,
        }
    }
}

impl Clone for OrderTransactionPayment {
    fn clone(&self) -> (r: Self)
        ensures
            r@ == self@,
    {
        OrderTransactionPayment {
            id: self.id.clone(),
            payment_id: self.payment_id,
            amount: self.amount,
            currency: self.currency.clone(),
            provider: self.provider.clone(),
            status: self.status.clone(),
            payment_type: self.payment_type.clone(),
            created_at: self.created_at,
        }
    }
}

/// The record of one purchase.
#[derive(Debug)]
pub struct OrderTransaction {
    pub id: ObjectId,
    pub order_id: ObjectId,
    pub transaction_type: String,
    pub basket_id: Option<String>,
    pub items: Vec<OrderTransactionItem>,
    pub payments: Vec<OrderTransactionPayment>,
    /// Milliseconds since the Unix epoch.
    pub created_at: i64,
}

/// What an `OrderTransaction` holds.
pub struct OrderTransactionView {
    pub id: ObjectId,
    pub order_id: ObjectId,
    pub transaction_type: Seq<char>,
    pub basket_id: Option<Seq<char>>,
    pub items: Seq<OrderTransactionItemView>,
    pub payments: Seq<OrderTransactionPaymentView>,
    pub created_at: i64,
}

impl View for OrderTransaction {
    type V = OrderTransactionView;

    open spec fn view(&self) -> OrderTransactionView {
        OrderTransactionView {
            id: self.id,
            order_id: self.order_id,
            transaction_type: self.transaction_type@,
            basket_id: match self.basket_id {
                Some(basket_id) => Some(basket_id@),
                None => None,
            },
            items: Seq::new(self.items@.len(), |i: int| self.items@[i]@),
            payments: Seq::new(self.payments@.len(), |i: int| self.payments@[i]@),
            created_at: self.created_at,
        }
    }
}

impl Clone for OrderTransaction {
    fn clone(&self) -> (r: Self)
        ensures
            r@ == self@,
    {
        let mut items: Vec<OrderTransactionItem> = Vec::new();
        let mut i: usize = 0;
        while i < self.items.len()
            invariant
                i <= self.items@.len(),
                items@.len() == i,
                forall|k: int| 0 <= k < i ==> (#[trigger] items@[k])@ == self.items@[k]@,
            decreases self.items@.len() - i,
        {
            items.push(self.items[i].clone());
            i += 1;
        }
        let mut payments: Vec<OrderTransactionPayment> = Vec::new();
        let mut p: usize = 0;
        while p < self.payments.len()
            invariant
                p <= self.payments@.len(),
                payments@.len() == p,
                forall|k: int| 0 <= k < p ==> (#[trigger] payments@[k])@ == self.payments@[k]@,
            decreases self.payments@.len() - p,
        {
            payments.push(self.payments[p].clone());
            p += 1;
        }
        let r = OrderTransaction {
            id: self.id,
            order_id: self.order_id,
            transaction_type: self.transaction_type.clone(),
            basket_id: match &self.basket_id {
                Some(basket_id) => Some(basket_id.clone()),
                None => None,
            },
            items,
            payments,
            created_at: self.created_at,
        };
        assert(r@.items =~= self@.items);
        assert(r@.payments =~= self@.payments);
        r
    }
}

impl OrderTransactionView {
    /// Whether a line of the purchase holds the unit `inventory_id`.
    pub open spec fn references(self, inventory_id: ObjectId) -> bool {
        exists|i: int, j: int|
            0 <= i < self.items.len() && 0 <= j < self.items[i].inventories.len()
                && (#[trigger] self.items[i].inventories[j]).inventory_id == inventory_id
    }
}

/// The views of a list of order transactions.
pub open spec fn order_views(orders: Seq<OrderTransaction>) -> Seq<OrderTransactionView> {
    Seq::new(orders.len(), |i: int| orders[i]@)
}

/// Whether one of `orders` holds the unit `inventory_id`.
pub open spec fn is_ordered(orders: Seq<OrderTransactionView>, inventory_id: ObjectId) -> bool {
    exists|o: int| 0 <= o < orders.len() && (#[trigger] orders[o]).references(inventory_id)
}

} // verus!
