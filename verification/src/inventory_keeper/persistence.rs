//! The repositories of the keeper: the ledger, read for lapsed reservations
//! and written with their resolutions, and the stored orders, read only.
use vstd::prelude::*;
use crate::inventories::data_models::{Inventory as StoredInventory, InventoryStatus};
use crate::inventory_keeper::models::{Inventory, InventoryUpdate};
use crate::inventory_keeper::persistence::internals::UpdateInventoriesContext;
use crate::ledger::{
    apply_updates, first_matching, guards_generated_stamp, lemma_first_matching_identified,
    matched_flags, stamps_rotate, ConditionalUpdate, InventoryQuery, Ledger, LedgerError,
    TransactionReport,
};
use crate::object_id::ObjectId;
use crate::orders::data_models::{order_views, OrderTransaction, OrderTransactionView};

pub mod internals;

verus! {

/// The largest number of lapsed reservations that one sweep reads.
pub const SWEEP_PAGE_SIZE: usize = 1000;

/// A stored unit as the keeper reads it.
pub open spec fn keeper_view(row: StoredInventory) -> Inventory {
    Inventory { id: row.id.unwrap(), status: row.status, concurrency_stamp: row.concurrency_stamp }
}

/// Stored units as the keeper reads them.
pub open spec fn keeper_views(rows: Seq<StoredInventory>) -> Seq<Inventory> {
    Seq::new(rows.len(), |k: int| keeper_view(rows[k]))
}

/// The conditional update that moves a unit to the state of `update`,
/// guarded by its stamp. The end of the reservation is left as it is.
pub open spec fn status_update(update: InventoryUpdate) -> ConditionalUpdate {
    ConditionalUpdate {
        id: update.id,
        concurrency_stamp: update.concurrency_stamp,
        status: update.status,
        reserved_until: None,
    }
}

/// One conditional update for each of `updates`.
pub open spec fn status_updates(updates: Seq<InventoryUpdate>) -> Seq<ConditionalUpdate> {
    Seq::new(updates.len(), |k: int| status_update(updates[k]))
}

/// Whether a purchase holds one of the units `inventory_ids`.
pub open spec fn references_any(order: OrderTransactionView, inventory_ids: Seq<ObjectId>) -> bool {
    exists|k: int| 0 <= k < inventory_ids.len() && order.references(#[trigger] inventory_ids[k])
}

/// The purchases among `orders` that hold one of the units `inventory_ids`,
/// in the order of `orders`.
pub open spec fn orders_referencing(
    orders: Seq<OrderTransactionView>,
    inventory_ids: Seq<ObjectId>,
) -> Seq<OrderTransactionView>
    decreases orders.len(),
{
    if orders.len() == 0 {
        Seq::empty()
    } else {
        let before = orders_referencing(orders.drop_last(), inventory_ids);
        if references_any(orders.last(), inventory_ids) {
            before.push(orders.last())
        } else {
            before
        }
    }
}

/// The keeper's repository of units. It holds the ledger.
#[derive(Debug)]
pub struct InventoryRepository {
    pub ledger: Ledger,
    pub database: String,
    pub collection: String,
}

impl InventoryRepository {
    pub fn new(ledger: Ledger, database: String, collection: String) -> (r: Self)
        ensures
            r.ledger == ledger,
            r.database == database,
            r.collection == collection,
    {
        InventoryRepository { ledger, database, collection }
    }

    /// Reads the first units, a page at most, that are in the state `status`
    /// and whose `reserved_until` lies before `now`.
    pub fn get_inventories(&self, status: InventoryStatus, now: i64) -> (r: Vec<Inventory>)
        requires
            self.ledger.wf(),
        ensures
            r@ == keeper_views(
                first_matching(
                    self.ledger.inventories(),
                    InventoryQuery::StatusBefore { status, cut_off: now },
                    SWEEP_PAGE_SIZE as nat,
                ),
            ),
    {
        let query = InventoryQuery::StatusBefore { status, cut_off: now };
        let found = self.ledger.find(&query, SWEEP_PAGE_SIZE);
        proof {
            lemma_first_matching_identified(
                self.ledger.inventories(),
                query,
                SWEEP_PAGE_SIZE as nat,
            );
        }
        let mut inventories: Vec<Inventory> = Vec::new();
        let mut i: usize = 0;
        while i < found.len()
            invariant
                i <= found@.len(),
                inventories@ == keeper_views(found@.take(i as int)),
                forall|k: int| 0 <= k < found@.len() ==> (#[trigger] found@[k]).id is Some,
            decreases found@.len() - i,
        {
            match found[i].id {
                Some(id) => {
                    inventories.push(
                        Inventory {
                            id,
                            status: found[i].status,
                            concurrency_stamp: found[i].concurrency_stamp.clone(),
                        },
                    );
                },
                None => {},
            }
            assert(inventories@ =~= keeper_views(found@.take(i + 1)));
            i += 1;
        }
        proof {
            assert(found@.take(i as int) =~= found@);
        }
        inventories
    }

    /// Writes the resolutions in one atomic batch, each guarded by the stamp
    /// that its unit was read with. A unit whose stored stamp has changed is
    /// passed over without failure. The batch fails only where the ledger
    /// aborts it, which takes a guarding stamp that can be generated.
    pub fn update_inventory_status(&mut self, inventory_updates: Vec<InventoryUpdate>) -> (
        r: Result<
        TransactionReport,
        LedgerError,
    >)
        requires
            old(self).ledger.wf(),
        ensures
            final(self).ledger.wf(),
            final(self).ledger.generate_inventories() == old(self).ledger.generate_inventories(),
            final(self).database == old(self).database,
            final(self).collection == old(self).collection,
            inventory_updates@.len() == 0 ==> r is Ok,
            !guards_generated_stamp(status_updates(inventory_updates@)) ==> r is Ok,
            r matches Ok(report) ==> {
                &&& stamps_rotate(status_updates(inventory_updates@), report.stamps@)
                &&& final(self).ledger.inventories() == apply_updates(
                    old(self).ledger.inventories(),
                    status_updates(inventory_updates@),
                    report.stamps@,
                )
                &&& report.matched@ == matched_flags(
                    old(self).ledger.inventories(),
                    status_updates(inventory_updates@),
                    report.stamps@,
                )
            },
            r matches Err(e) ==> e == LedgerError::TransactionAborted && final(
                self).ledger.inventories()
                == old(self).ledger.inventories(),
    {
        let context = UpdateInventoriesContext {
            database: self.database.clone(),
            collecion: self.collection.clone(),
            inventory_updates: inventory_updates.as_slice(),
        };
        batch_update_inventory_status(&mut self.ledger, &context)
    }
}

/// One conditional update for each of `inventory_updates`: the state to move
/// the unit to, guarded by the stamp that the unit was read with. The end of
/// the reservation is left as it is.
pub fn build_status_updates(inventory_updates: &[InventoryUpdate]) -> (r: Vec<ConditionalUpdate>)
    ensures
        r@ == status_updates(inventory_updates@),
{
    let mut updates: Vec<ConditionalUpdate> = Vec::new();
    let mut i: usize = 0;
    while i < inventory_updates.len()
        invariant
            i <= inventory_updates@.len(),
            updates@ == status_updates(inventory_updates@.take(i as int)),
        decreases inventory_updates@.len() - i,
    {
        let update = &inventory_updates[i];
        updates.push(
            ConditionalUpdate {
                id: update.id,
                concurrency_stamp: update.concurrency_stamp.clone(),
                status: update.status,
                reserved_until: None,
            },
        );
        assert(updates@ =~= status_updates(inventory_updates@.take(i + 1)));
        i += 1;
    }
    proof {
        assert(inventory_updates@.take(i as int) =~= inventory_updates@);
    }
    updates
}

/// Applies the updates of `context` to the ledger in one atomic batch.
pub fn batch_update_inventory_status(ledger: &mut Ledger, context: &UpdateInventoriesContext<'_>) -> (r:
    Result<TransactionReport, LedgerError>)
    requires
        old(ledger).wf(),
    ensures
        final(ledger).wf(),
        final(ledger).generate_inventories() == old(ledger).generate_inventories(),
        context.inventory_updates@.len() == 0 ==> r is Ok,
        !guards_generated_stamp(status_updates(context.inventory_updates@)) ==> r is Ok,
        r matches Ok(report) ==> {
            &&& stamps_rotate(status_updates(context.inventory_updates@), report.stamps@)
            &&& final(ledger).inventories() == apply_updates(
                old(ledger).inventories(),
                status_updates(context.inventory_updates@),
                report.stamps@,
            )
            &&& report.matched@ == matched_flags(
                old(ledger).inventories(),
                status_updates(context.inventory_updates@),
                report.stamps@,
            )
        },
        r matches Err(e) ==> e == LedgerError::TransactionAborted && final(ledger).inventories()
            == old(ledger).inventories(),
{
    let updates = build_status_updates(context.inventory_updates);
    ledger.transaction(&updates)
}

/// Whether a line of the purchase holds the unit `inventory_id`.
pub fn order_references(order: &OrderTransaction, inventory_id: &ObjectId) -> (r: bool)
    ensures
        r == order@.references(*inventory_id),
{
    let mut i: usize = 0;
    while i < order.items.len()
        invariant
            i <= order.items@.len(),
            forall|a: int, b: int|
                0 <= a < i && 0 <= b < order@.items[a].inventories.len() ==> (
                #[trigger] order@.items[a].inventories[b]).inventory_id != *inventory_id,
        decreases order.items@.len() - i,
    {
        let item = &order.items[i];
        let mut j: usize = 0;
        while j < item.inventories.len()
            invariant
                i < order.items@.len(),
                *item == order.items@[i as int],
                j <= item.inventories@.len(),
                forall|b: int|
                    0 <= b < j ==> (#[trigger] order@.items[i as int].inventories[b]).inventory_id
                        != *inventory_id,
            decreases item.inventories@.len() - j,
        {
            if item.inventories[j].inventory_id == *inventory_id {
                proof {
                    assert(order@.items[i as int].inventories[j as int].inventory_id
                        == *inventory_id);
                }
                return true;
            }
            j += 1;
        }
        i += 1;
    }
    false
}

/// Whether the purchase holds one of the units `inventory_ids`.
pub fn order_references_any(order: &OrderTransaction, inventory_ids: &Vec<ObjectId>) -> (r: bool)
    ensures
        r == references_any(order@, inventory_ids@),
{
    let mut k: usize = 0;
    while k < inventory_ids.len()
        invariant
            k <= inventory_ids@.len(),
            forall|m: int| 0 <= m < k ==> !order@.references(#[trigger] inventory_ids@[m]),
        decreases inventory_ids@.len() - k,
    {
        if order_references(order, &inventory_ids[k]) {
            return true;
        }
        k += 1;
    }
    false
}

/// The keeper's repository of orders. The keeper only reads it.
#[derive(Debug)]
pub struct OrderTransactionRepository {
    pub transactions: Vec<OrderTransaction>,
    pub database: String,
    pub collection: String,
}

impl OrderTransactionRepository {
    pub fn new(transactions: Vec<OrderTransaction>, database: String, collection: String) -> (r:
        Self)
        ensures
            r.transactions == transactions,
            r.database == database,
            r.collection == collection,
    {
        OrderTransactionRepository { transactions, database, collection }
    }

    /// The stored purchases.
    pub open spec fn orders(&self) -> Seq<OrderTransactionView> {
        order_views(self.transactions@)
    }

    /// Reads the purchases that hold one of the units `inventory_ids`.
    pub fn get_order_tranactions(&self, inventory_ids: Vec<ObjectId>) -> (r: Vec<OrderTransaction>)
        ensures
            order_views(r@) == orders_referencing(self.orders(), inventory_ids@),
    {
        let mut found: Vec<OrderTransaction> = Vec::new();
        let mut i: usize = 0;
        while i < self.transactions.len()
            invariant
                i <= self.transactions@.len(),
                order_views(found@) == orders_referencing(
                    self.orders().take(i as int),
                    inventory_ids@,
                ),
            decreases self.transactions@.len() - i,
        {
            proof {
                lemma_orders_referencing_step(self.orders(), inventory_ids@, i as int);
            }
            let ghost before = order_views(found@);
            if order_references_any(&self.transactions[i], &inventory_ids) {
                found.push(self.transactions[i].clone());
                assert(order_views(found@) =~= before.push(self.orders()[i as int]));
            }
            i += 1;
        }
        proof {
            assert(self.orders().take(i as int) =~= self.orders());
        }
        found
    }
}

/// Extending a prefix by one purchase extends its referencing purchases by
/// that purchase, or not at all.
pub proof fn lemma_orders_referencing_step(
    orders: Seq<OrderTransactionView>,
    inventory_ids: Seq<ObjectId>,
    i: int,
)
    requires
        0 <= i < orders.len(),
    ensures
        orders_referencing(orders.take(i + 1), inventory_ids) == if references_any(
            orders[i],
            inventory_ids,
        ) {
            orders_referencing(orders.take(i), inventory_ids).push(orders[i])
        } else {
            orders_referencing(orders.take(i), inventory_ids)
        },
{
    assert(orders.take(i + 1).drop_last() =~= orders.take(i));
    assert(orders.take(i + 1).last() == orders[i]);
}

/// A unit among `inventory_ids` is held by one of the referencing purchases
/// exactly when it is held by one of all the purchases.
pub proof fn lemma_orders_referencing_complete(
    orders: Seq<OrderTransactionView>,
    inventory_ids: Seq<ObjectId>,
    k: int,
)
    requires
        0 <= k < inventory_ids.len(),
    ensures
        crate::orders::data_models::is_ordered(
            orders_referencing(orders, inventory_ids),
            inventory_ids[k],
        ) == crate::orders::data_models::is_ordered(orders, inventory_ids[k]),
    decreases orders.len(),
{
    let id = inventory_ids[k];
    let relevant = orders_referencing(orders, inventory_ids);
    if orders.len() > 0 {
        let head = orders.drop_last();
        let head_relevant = orders_referencing(head, inventory_ids);
        lemma_orders_referencing_complete(head, inventory_ids, k);
        if crate::orders::data_models::is_ordered(orders, id) {
            let o = choose|o: int| 0 <= o < orders.len() && (#[trigger] orders[o]).references(id);
            if o < head.len() {
                assert(head[o].references(id));
                let m = choose|m: int|
                    0 <= m < head_relevant.len() && (#[trigger] head_relevant[m]).references(id);
                assert(relevant[m] == head_relevant[m]);
            } else {
                assert(references_any(orders.last(), inventory_ids));
                assert(relevant[relevant.len() - 1].references(id));
            }
        }
        if crate::orders::data_models::is_ordered(relevant, id) {
            let m = choose|m: int|
                0 <= m < relevant.len() && (#[trigger] relevant[m]).references(id);
            if m < head_relevant.len() {
                assert(head_relevant[m].references(id));
                let o = choose|o: int| 0 <= o < head.len() && (#[trigger] head[o]).references(id);
                assert(orders[o].references(id));
            } else {
                assert(orders[orders.len() - 1].references(id));
            }
        }
    }
}

} // verus!
