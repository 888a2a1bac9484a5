//! The sweep. It reads the lapsed reservations, a page at a time, looks each
//! unit up in the stored orders, and resolves it: to `Sold` where an order
//! holds it, back to `Available` where none does. The sweep is the only
//! writer of `Sold`. It looks at no unit that is not `Reserved`, so a sold
//! unit is never looked at again.
use vstd::prelude::*;
use crate::helpers::get_current_time;
use crate::inventories::data_models::{Inventory as StoredInventory, InventoryStatus};
use crate::inventory_keeper::models::{Inventory, InventoryUpdate};
use crate::inventory_keeper::persistence::{
    keeper_view, keeper_views, lemma_orders_referencing_complete, order_references,
    status_updates, InventoryRepository, OrderTransactionRepository, SWEEP_PAGE_SIZE,
};
use crate::ledger::{
    apply_updates, carries_generated_stamp, first_matching, guards_generated_stamp,
    inventories_well_formed, is_generated_stamp, is_selected, lemma_first_matching_identified,
    lemma_found_stamps, lemma_matching_at_rank, lemma_none_matching, lemma_update_selected, rank,
    stamps_rotate, updates_guard, ConditionalUpdate, InventoryQuery, LedgerError,
};
use crate::object_id::ObjectId;
use crate::orders::data_models::{is_ordered, order_views, OrderTransaction, OrderTransactionView};

verus! {

/// The state that the stored orders resolve a lapsed reservation to: `Sold`
/// where one of them holds the unit, `Available` otherwise.
pub open spec fn resolution(orders: Seq<OrderTransactionView>,
    inventory_id: ObjectId) -> InventoryStatus {
    if is_ordered(orders, inventory_id) {
        InventoryStatus::Sold
    } else {
        InventoryStatus::Available
    }
}

/// The resolution of one unit, guarded by the stamp it was read with.
pub open spec fn inventory_update(inventory: Inventory,
    orders: Seq<OrderTransactionView>) -> InventoryUpdate {
    InventoryUpdate {
        id: inventory.id,
        status: resolution(orders, inventory.id),
        concurrency_stamp: inventory.concurrency_stamp,
    }
}

/// The resolutions of `inventories`, one for each.
pub open spec fn inventory_updates(
    inventories: Seq<Inventory>,
    orders: Seq<OrderTransactionView>,
) -> Seq<InventoryUpdate> {
    Seq::new(inventories.len(), |k: int| inventory_update(inventories[k], orders))
}

/// The query of the sweep at `now`: the units whose reservation has lapsed.
pub open spec fn lapsed_query(now: i64) -> InventoryQuery {
    InventoryQuery::StatusBefore { status: InventoryStatus::Reserved, cut_off: now }
}

/// The units that a sweep at `now` reads: the first page of lapsed
/// reservations.
pub open spec fn lapsed_page(rows: Seq<StoredInventory>, now: i64) -> Seq<StoredInventory> {
    first_matching(rows, lapsed_query(now), SWEEP_PAGE_SIZE as nat)
}

/// The batch that a sweep at `now` writes: one resolution for each unit of
/// the page.
pub open spec fn sweep_updates(
    rows: Seq<StoredInventory>,
    orders: Seq<OrderTransactionView>,
    now: i64,
) -> Seq<ConditionalUpdate> {
    status_updates(inventory_updates(keeper_views(lapsed_page(rows, now)), orders))
}

/// Whether `after` is `before` resolved by the stored orders: the state is
/// set, the stamp has changed, and the rest is as it was.
pub open spec fn is_resolved_from(
    after: StoredInventory,
    before: StoredInventory,
    orders: Seq<OrderTransactionView>,
) -> bool {
    &&& after.id == before.id
    &&& after.event_id == before.event_id
    &&& after.generate_inventory_id == before.generate_inventory_id
    &&& after.reserved_until == before.reserved_until
    &&& after.status == resolution(orders, before.id.unwrap())
    &&& after.concurrency_stamp@ != before.concurrency_stamp@
}

/// Whether `after` is `before` swept at `now`: every unit of the first page
/// of lapsed reservations is resolved, and every other unit is untouched.
pub open spec fn swept(
    before: Seq<StoredInventory>,
    after: Seq<StoredInventory>,
    orders: Seq<OrderTransactionView>,
    now: i64,
) -> bool {
    &&& after.len() == before.len()
    &&& forall|i: int|
        0 <= i < before.len() ==> if is_selected(
            before,
            lapsed_query(now),
            SWEEP_PAGE_SIZE as nat,
            i,
        ) {
            is_resolved_from(#[trigger] after[i], before[i], orders)
        } else {
            after[i] == before[i]
        }
}

/// Whether `r` and `after` are the outcome of a sweep of `before` at `now`:
/// on success the ledger is swept; a sweep fails only where the ledger
/// aborts its batch, which leaves the ledger as it was and takes a lapsed
/// reservation, among those that the sweep read, with a stamp that can be
/// generated.
pub open spec fn is_sweep_outcome(
    r: Result<(), LedgerError>,
    before: Seq<StoredInventory>,
    after: Seq<StoredInventory>,
    orders: Seq<OrderTransactionView>,
    now: i64,
) -> bool {
    match r {
        Ok(_) => swept(before, after, orders, now),
        Err(e) => e == LedgerError::TransactionAborted && after == before
            && carries_generated_stamp(lapsed_page(before, now)),
    }
}

/// Whether one of the purchases holds the unit.
pub fn order_contains_inventory(order_transactions: &Vec<OrderTransaction>,
    inventory_id: &ObjectId) -> (r:
    bool)
    ensures
        r == is_ordered(order_views(order_transactions@), *inventory_id),
{
    let mut o: usize = 0;
    while o < order_transactions.len()
        invariant
            o <= order_transactions@.len(),
            forall|m: int|
                0 <= m < o ==> !(#[trigger] order_views(order_transactions@)[m]).references(
                    *inventory_id,
                ),
        decreases order_transactions@.len() - o,
    {
        if order_references(&order_transactions[o], inventory_id) {
            proof {
                assert(order_views(order_transactions@)[o as int].references(*inventory_id));
            }
            return true;
        }
        o += 1;
    }
    false
}

/// The resolution of one lapsed reservation: `Sold` where one of the
/// purchases holds the unit, `Available` otherwise, guarded by the stamp that
/// the unit was read with.
pub fn create_inventory_update(inventory: &Inventory,
    order_transactions: &Vec<OrderTransaction>) -> (r:
    InventoryUpdate)
    ensures
        r == inventory_update(*inventory, order_views(order_transactions@)),
{
    let status = if order_contains_inventory(order_transactions, &inventory.id) {
        InventoryStatus::Sold
    } else {
        InventoryStatus::Available
    };
    InventoryUpdate {
        id: inventory.id,
        status,
        concurrency_stamp: inventory.concurrency_stamp.clone(),
    }
}

/// The resolutions of `inventories`, one for each.
pub fn get_inventory_updates(inventories: Vec<Inventory>,
    order_transactions: &Vec<OrderTransaction>) -> (r:
    Vec<InventoryUpdate>)
    ensures
        r@ == inventory_updates(inventories@, order_views(order_transactions@)),
{
    let mut updates: Vec<InventoryUpdate> = Vec::new();
    let mut i: usize = 0;
    while i < inventories.len()
        invariant
            i <= inventories@.len(),
            updates@ == inventory_updates(
                inventories@.take(i as int),
                order_views(order_transactions@),
            ),
        decreases inventories@.len() - i,
    {
        updates.push(create_inventory_update(&inventories[i], order_transactions));
        assert(updates@ =~= inventory_updates(
            inventories@.take(i + 1),
            order_views(order_transactions@),
        ));
        i += 1;
    }
    proof {
        assert(inventories@.take(i as int) =~= inventories@);
    }
    updates
}

/// The identifiers of `inventories`, one for each.
pub fn inventory_ids(inventories: &Vec<Inventory>) -> (r: Vec<ObjectId>)
    ensures
        r@.len() == inventories@.len(),
        forall|k: int| 0 <= k < r@.len() ==> #[trigger] r@[k] == inventories@[k].id,
{
    let mut ids: Vec<ObjectId> = Vec::new();
    let mut i: usize = 0;
    while i < inventories.len()
        invariant
            i <= inventories@.len(),
            ids@.len() == i,
            forall|k: int| 0 <= k < i ==> #[trigger] ids@[k] == inventories@[k].id,
        decreases inventories@.len() - i,
    {
        ids.push(inventories[i].id);
        i += 1;
    }
    ids
}

/// The keeper. It holds the ledger, through its repository of units, and the
/// stored orders.
#[derive(Debug)]
pub struct InventoryKeeperService {
    pub inventory_repository: InventoryRepository,
    pub order_transaction_repostiry: OrderTransactionRepository,
}

impl InventoryKeeperService {
    /// The stored units.
    pub open spec fn inventories(&self) -> Seq<StoredInventory> {
        self.inventory_repository.ledger.inventories()
    }

    /// The stored purchases.
    pub open spec fn orders(&self) -> Seq<OrderTransactionView> {
        self.order_transaction_repostiry.orders()
    }

    /// The invariant of the ledger that the keeper holds.
    pub open spec fn wf(&self) -> bool {
        self.inventory_repository.ledger.wf()
    }

    pub fn new(
        inventory_repository: InventoryRepository,
        order_transaction_repostiry: OrderTransactionRepository,
    ) -> (r: Self)
        ensures
            r.inventory_repository == inventory_repository,
            r.order_transaction_repostiry == order_transaction_repostiry,
    {
        InventoryKeeperService { inventory_repository, order_transaction_repostiry }
    }

    /// One sweep at `now`. Every unit of the first page of lapsed
    /// reservations is resolved by the stored orders; no other unit
    /// changes. Where the ledger aborts the batch, nothing changes. A sweep
    /// that finds no lapsed reservation writes nothing and always succeeds,
    /// and so does a sweep whose page holds no unit with a stamp that can be
    /// generated.
    pub fn do_inventory_keeping_at(&mut self, now: i64) -> (r: Result<(), LedgerError>)
        requires
            old(self).wf(),
        ensures
            final(self).wf(),
            final(self).orders() == old(self).orders(),
            final(self).inventory_repository.ledger.generate_inventories() == old(
                self).inventory_repository.ledger.generate_inventories(),
            lapsed_page(old(self).inventories(), now).len() == 0 ==> r is Ok,
            !carries_generated_stamp(lapsed_page(old(self).inventories(), now)) ==> r is Ok,
            is_sweep_outcome(
                r,
                old(self).inventories(),
                final(self).inventories(),
                old(self).orders(),
                now,
            ),
    {
        let inventories = self.inventory_repository.get_inventories(InventoryStatus::Reserved, now);
        let ids = inventory_ids(&inventories);
        let ghost id_seq = ids@;
        let order_transactions = self.order_transaction_repostiry.get_order_tranactions(ids);
        let ghost rows = self.inventories();
        let ghost page = lapsed_page(rows, now);
        let ghost read = keeper_views(page);
        let inventory_updates = get_inventory_updates(inventories, &order_transactions);
        proof {
            let relevant = order_views(order_transactions@);
            assert(inventory_updates@ =~= crate::inventory_keeper::application::inventory_updates(
                read,
                self.orders(),
            )) by {
                assert forall|k: int| 0 <= k < read.len() implies inventory_update(
                    read[k],
                    relevant,
                ) == inventory_update(read[k], self.orders()) by {
                    lemma_orders_referencing_complete(self.orders(), id_seq, k);
                }
            }
        }
        let ghost updates = status_updates(inventory_updates@);
        proof {
            assert(updates.len() == page.len());
            assert forall|k: int| 0 <= k < page.len() implies (#[trigger] updates[k]).concurrency_stamp
                == page[k].concurrency_stamp by {
                assert(read[k] == keeper_view(page[k]));
            }
            if guards_generated_stamp(updates) {
                let k = choose|k: int|
                    0 <= k < updates.len() && is_generated_stamp(
                        (#[trigger] updates[k]).concurrency_stamp@,
                    );
                assert(is_generated_stamp(page[k].concurrency_stamp@));
            }
        }
        match self.inventory_repository.update_inventory_status(inventory_updates) {
            Ok(report) => {
                proof {
                    lemma_sweep_writes_selected(rows, self.orders(), now, report.stamps@);
                }
                Ok(())
            },
            Err(e) => Err(e),
        }
    }

    /// One sweep at the current time. Every unit of the first page of lapsed
    /// reservations is resolved by the stored orders; no other unit
    /// changes. Where the ledger aborts the batch, nothing changes. A sweep
    /// of a ledger without any reserved unit always succeeds, and so does a
    /// sweep of a ledger none of whose units carries a stamp that can be
    /// generated.
    pub fn do_inventory_keeping(&mut self) -> (r: Result<(), LedgerError>)
        requires
            old(self).wf(),
        ensures
            final(self).wf(),
            final(self).orders() == old(self).orders(),
            final(self).inventory_repository.ledger.generate_inventories() == old(
                self).inventory_repository.ledger.generate_inventories(),
            (forall|i: int|
                0 <= i < old(self).inventories().len() ==> (#[trigger] old(
                    self).inventories()[i]).status != InventoryStatus::Reserved) ==> r is Ok,
            !carries_generated_stamp(old(self).inventories()) ==> r is Ok,
            exists|now: i64|
                #[trigger] is_sweep_outcome(
                    r,
                    old(self).inventories(),
                    final(self).inventories(),
                    old(self).orders(),
                    now,
                ),
    {
        let now = get_current_time();
        let r = self.do_inventory_keeping_at(now);
        proof {
            assert(is_sweep_outcome(
                r,
                old(self).inventories(),
                self.inventories(),
                old(self).orders(),
                now,
            ));
            if forall|i: int|
                0 <= i < old(self).inventories().len() ==> (#[trigger] old(
                    self).inventories()[i]).status != InventoryStatus::Reserved {
                lemma_none_matching(old(self).inventories(), lapsed_query(now));
            }
            if !carries_generated_stamp(old(self).inventories()) {
                lemma_found_stamps(
                    old(self).inventories(),
                    lapsed_query(now),
                    SWEEP_PAGE_SIZE as nat,
                );
            }
        }
        r
    }
}

/// The batch of a sweep, run on the ledger that the sweep read, writes
/// exactly the units of its page: each is resolved by the stored orders
/// under a new stamp, and no other unit changes.
pub proof fn lemma_sweep_writes_selected(
    rows: Seq<StoredInventory>,
    orders: Seq<OrderTransactionView>,
    now: i64,
    stamps: Seq<String>,
)
    requires
        inventories_well_formed(rows),
        stamps_rotate(sweep_updates(rows, orders, now), stamps),
    ensures
        swept(rows, apply_updates(rows, sweep_updates(rows, orders, now), stamps), orders, now),
        inventories_well_formed(apply_updates(rows, sweep_updates(rows, orders, now), stamps)),
{
    let query = lapsed_query(now);
    let limit = SWEEP_PAGE_SIZE as nat;
    let page = lapsed_page(rows, now);
    let updates = sweep_updates(rows, orders, now);
    lemma_first_matching_identified(rows, query, limit);
    assert(updates_guard(page, updates));
    lemma_update_selected(rows, query, limit, updates, stamps);
    let after = apply_updates(rows, updates, stamps);
    assert forall|i: int| 0 <= i < rows.len() implies if is_selected(rows, query, limit, i) {
        is_resolved_from(#[trigger] after[i], rows[i], orders)
    } else {
        after[i] == rows[i]
    } by {
        if is_selected(rows, query, limit, i) {
            let k = rank(rows, query, i) as int;
            lemma_matching_at_rank(rows, query, i);
            assert(page[k] == rows[i]);
            assert(after[i] == updates[k].write(rows[i], stamps[k]));
        }
    }
}

} // verus!
