//! The store of order transactions. It is only appended to.
use vstd::prelude::*;
use crate::object_id::ObjectId;
use crate::orders::data_models::{order_views, OrderTransaction, OrderTransactionView};

verus! {

/// The first of `orders` with the identifier `id`.
pub open spec fn order_with(orders: Seq<OrderTransactionView>, id: ObjectId) -> Option<
    OrderTransactionView,
>
    decreases orders.len(),
{
    if orders.len() == 0 {
        None
    } else if orders[0].id == id {
        Some(orders[0])
    } else {
        order_with(orders.drop_first(), id)
    }
}

/// The order transactions of the store, in insertion order.
#[derive(Debug)]
pub struct InMemoryOrderTransactionRepository {
    pub transactions: Vec<OrderTransaction>,
}

impl InMemoryOrderTransactionRepository {
    /// The stored order transactions.
    pub open spec fn orders(&self) -> Seq<OrderTransactionView> {
        order_views(self.transactions@)
    }

    pub fn new() -> (r: Self)
        ensures
            r.orders() == Seq::<OrderTransactionView>::empty(),
    {
        let r = InMemoryOrderTransactionRepository { transactions: Vec::new() };
        assert(r.orders() =~= Seq::<OrderTransactionView>::empty());
        r
    }

    /// The first stored order transaction with the identifier `id`.
    pub fn get(&self, id: ObjectId) -> (r: Option<OrderTransaction>)
        ensures
            match order_with(self.orders(), id) {
                Some(order) => r matches Some(found) && found@ == order,
                None => r is None,
            },
    {
        let mut i: usize = 0;
        proof {
            assert(self.orders().skip(0) =~= self.orders());
        }
        while i < self.transactions.len()
            invariant
                i <= self.transactions@.len(),
                order_with(self.orders(), id) == order_with(self.orders().skip(i as int), id),
            decreases self.transactions@.len() - i,
        {
            proof {
                assert(self.orders().skip(i as int)[0] == self.transactions@[i as int]@);
                assert(self.orders().skip(i as int).drop_first() =~= self.orders().skip(i + 1));
            }
            if self.transactions[i].id == id {
                return Some(self.transactions[i].clone());
            }
            i += 1;
        }
        None
    }

    /// Appends an order transaction.
    pub fn save(&mut self, order_transaction: &OrderTransaction)
        ensures
            final(self).orders() == old(self).orders().push(order_transaction@),
    {
        self.transactions.push(order_transaction.clone());
        proof {
            assert(self.orders() =~= old(self).orders().push(order_transaction@));
        }
    }
}

} // verus!
