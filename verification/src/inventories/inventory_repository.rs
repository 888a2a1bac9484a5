//! The inventory repository: the operations of the inventory service on the
//! ledger.
use vstd::prelude::*;
use crate::inventories::data_models::{GenerateInventory, Inventory};
use crate::inventories::data_transfer_objects::ReservedInventory;
use crate::inventories::errors::InventoryError;
use crate::ledger::{
    apply_updates, carry_new_ids, contains_id, contains_request_id, first_matching,
    guards_generated_stamp, lemma_matching_prefix, matched_flags, matching, request_with_id,
    stamps_rotate, with_id, ConditionalUpdate, InventoryQuery, Ledger, LedgerError,
    TransactionReport,
};
use crate::object_id::{encode_hex, parsed_object_id, ObjectId};

verus! {

/// The units of `rows` that carry an identifier, in the order of `rows`.
pub open spec fn identified(rows: Seq<Inventory>) -> Seq<Inventory>
    decreases rows.len(),
{
    if rows.len() == 0 {
        Seq::empty()
    } else {
        let before = identified(rows.drop_last());
        if rows.last().id is Some {
            before.push(rows.last())
        } else {
            before
        }
    }
}

/// The conditional update that writes the state and the reservation end of
/// `row` to the stored unit of the same identifier, guarded by the stamp of
/// `row`.
pub open spec fn reservation_update(row: Inventory) -> ConditionalUpdate {
    ConditionalUpdate {
        id: row.id.unwrap(),
        concurrency_stamp: row.concurrency_stamp,
        status: row.status,
        reserved_until: Some(row.reserved_until),
    }
}

/// One conditional update for each unit of `rows` that carries an
/// identifier.
pub open spec fn reservation_updates(rows: Seq<Inventory>) -> Seq<ConditionalUpdate> {
    Seq::new(identified(rows).len(), |k: int| reservation_update(identified(rows)[k]))
}

/// Whether `receipt` is the receipt for `row`: the text form of its
/// identifier and the end of its reservation.
pub open spec fn is_receipt_for(receipt: ReservedInventory, row: Inventory) -> bool {
    &&& row.id is Some
    &&& receipt.inventory_id@ == encode_hex(row.id.unwrap()@)
    &&& receipt.reserved_until == row.reserved_until
}

/// Whether `receipts` holds one receipt for each unit of `rows` that carries
/// an identifier, in order.
pub open spec fn are_receipts_for(receipts: Seq<ReservedInventory>, rows: Seq<Inventory>) -> bool {
    &&& receipts.len() == identified(rows).len()
    &&& forall|k: int|
        0 <= k < receipts.len() ==> is_receipt_for(#[trigger] receipts[k], identified(rows)[k])
}

/// The number of units that a query for `quantity` units may return.
pub open spec fn query_limit(quantity: i64) -> nat {
    if quantity < 0 {
        0
    } else {
        quantity as nat
    }
}

/// The units that the insertion of `rows` appended to `before`: each unit of
/// `rows` under an identifier of its own, its other fields as given.
pub open spec fn appended(before: Seq<Inventory>, after: Seq<Inventory>,
    rows: Seq<Inventory>) -> bool {
    &&& after.len() == before.len() + rows.len()
    &&& after.take(before.len() as int) == before
    &&& forall|k: int|
        0 <= k < rows.len() ==> (#[trigger] after[before.len() + k]).id is Some && after[before.len(
            )
            + k] == with_id(rows[k], after[before.len() + k].id.unwrap())
}

/// The repository of the inventory service. It holds the ledger.
#[derive(Debug)]
pub struct InMemoryInventoryRepository {
    pub ledger: Ledger,
}

impl InMemoryInventoryRepository {
    pub fn new(ledger: Ledger) -> (r: Self)
        ensures
            r.ledger == ledger,
    {
        InMemoryInventoryRepository { ledger }
    }

    /// Stores a generation request and returns the text form of the
    /// identifier that the store gave it. Fails where the identifier is
    /// taken; in a store without requests none is.
    pub fn add_generate_inventory(&mut self, generate_inventory: &GenerateInventory) -> (r: Result<
        String,
        LedgerError,
    >)
        requires
            old(self).ledger.wf(),
        ensures
            final(self).ledger.wf(),
            final(self).ledger.inventories() == old(self).ledger.inventories(),
            generate_inventory.id matches Some(id) ==> (r is Ok <==> !contains_request_id(
                old(self).ledger.generate_inventories(),
                id,
            )),
            old(self).ledger.generate_inventories().len() == 0 ==> r is Ok,
            r matches Ok(hex) ==> {
                &&& parsed_object_id(hex@) matches Some(id)
                &&& (generate_inventory.id is Some ==> generate_inventory.id == Some(id))
                &&& !contains_request_id(old(self).ledger.generate_inventories(), id)
                &&& final(self).ledger.generate_inventories() == old(
                    self).ledger.generate_inventories().push(request_with_id(*generate_inventory,
                        id))
            },
            r matches Err(e) ==> e == LedgerError::DuplicateKey && final(
                self).ledger.generate_inventories() == old(self).ledger.generate_inventories(),
    {
        match self.ledger.insert_generate_inventory(*generate_inventory) {
            Ok(id) => Ok(id.to_hex()),
            Err(e) => Err(e),
        }
    }

    /// Stores new units, one after another. The insert is not atomic: it
    /// stops at the first unit whose identifier is taken, and the units
    /// before that one stay stored. It fails on no other unit: units that
    /// carry identifiers of their own, all different and none of them
    /// stored, are always stored.
    pub fn add_batch(&mut self, inventories: Vec<Inventory>) -> (r: Result<(), LedgerError>)
        requires
            old(self).ledger.wf(),
        ensures
            final(self).ledger.wf(),
            final(self).ledger.generate_inventories() == old(self).ledger.generate_inventories(),
            inventories@.len() == 0 ==> r is Ok,
            carry_new_ids(old(self).ledger.inventories(), inventories@) ==> r is Ok,
            r is Ok ==> appended(
                old(self).ledger.inventories(),
                final(self).ledger.inventories(),
                inventories@,
            ),
            r matches Err(e) ==> {
                &&& e == LedgerError::DuplicateKey
                &&& exists|n: int|
                    {
                        &&& 0 <= n < inventories@.len()
                        &&& #[trigger] appended(
                            old(self).ledger.inventories(),
                            final(self).ledger.inventories(),
                            inventories@.take(n),
                        )
                        &&& inventories@[n].id matches Some(id) ==> contains_id(
                            final(self).ledger.inventories(),
                            id,
                        )
                    }
            },
    {
        let ghost before = self.ledger.inventories();
        match self.ledger.insert_many(inventories) {
            Ok(ids) => {
                proof {
                    let after = self.ledger.inventories();
                    assert(after.take(before.len() as int) =~= before);
                }
                Ok(())
            },
            Err(e) => {
                proof {
                    let after = self.ledger.inventories();
                    let ids = choose|ids: Seq<ObjectId>|
                        {
                            &&& ids.len() < inventories@.len()
                            &&& after == before + #[trigger] crate::ledger::with_ids(
                                inventories@,
                                ids,
                            )
                            &&& inventories@[ids.len() as int].id matches Some(id)
                                ==> contains_id(after, id)
                        };
                    let n = ids.len() as int;
                    assert(after.take(before.len() as int) =~= before);
                    assert(appended(before, after, inventories@.take(n)));
                }
                Err(e)
            },
        }
    }

    /// Reads up to `quantity` units of the event that no reservation holds at
    /// `cut_off`, in insertion order. Fails, before it reads anything, where
    /// `event_id` is not the text form of an identifier.
    pub fn get_unreserved_inventories(&self, event_id: String, quantity: i64, cut_off: i64) -> (r:
        Result<Vec<Inventory>, InventoryError>)
        ensures
            match parsed_object_id(event_id@) {
                None => r == Err::<Vec<Inventory>, InventoryError>(InventoryError::MalformedId),
                Some(event) => r matches Ok(found) && found@ == first_matching(
                    self.ledger.inventories(),
                    InventoryQuery::Unreserved { event_id: event, cut_off },
                    query_limit(quantity),
                ),
            },
    {
        let event = match ObjectId::parse_str(event_id.as_str()) {
            Ok(event) => event,
            Err(_) => {
                return Err(InventoryError::MalformedId);
            },
        };
        let query = InventoryQuery::Unreserved { event_id: event, cut_off };
        let length = self.ledger.len();
        let limit: usize = if quantity <= 0 {
            0
        } else if quantity as u64 >= length as u64 {
            length
        } else {
            quantity as usize
        };
        let found = self.ledger.find(&query, limit);
        proof {
            lemma_matching_prefix(self.ledger.inventories(), query, 0);
            lemma_matching_len(self.ledger.inventories(), query);
        }
        Ok(found)
    }

    /// Writes the state and the reservation end of each of `inventories` to
    /// the stored unit of the same identifier, in one atomic batch. Each
    /// write is guarded by the stamp that the given unit carries; a unit
    /// whose stored stamp has changed is passed over without failure. The
    /// batch fails only where the ledger aborts it, which takes a guarding
    /// stamp that can be generated.
    pub fn batch_update_reservations(&mut self, inventories: &Vec<Inventory>) -> (r: Result<
        TransactionReport,
        LedgerError,
    >)
        requires
            old(self).ledger.wf(),
        ensures
            final(self).ledger.wf(),
            final(self).ledger.generate_inventories() == old(self).ledger.generate_inventories(),
            reservation_updates(inventories@).len() == 0 ==> r is Ok,
            !guards_generated_stamp(reservation_updates(inventories@)) ==> r is Ok,
            r matches Ok(report) ==> {
                &&& stamps_rotate(reservation_updates(inventories@), report.stamps@)
                &&& final(self).ledger.inventories() == apply_updates(
                    old(self).ledger.inventories(),
                    reservation_updates(inventories@),
                    report.stamps@,
                )
                &&& report.matched@ == matched_flags(
                    old(self).ledger.inventories(),
                    reservation_updates(inventories@),
                    report.stamps@,
                )
            },
            r matches Err(e) ==> e == LedgerError::TransactionAborted && final(
                self).ledger.inventories() == old(self).ledger.inventories(),
    {
        let updates = build_reservation_updates(inventories);
        self.ledger.transaction(&updates)
    }

    /// The number of stored units that were created for a generation
    /// request.
    pub fn count_generated(&self, generate_inventory_id: ObjectId) -> (r: usize)
        ensures
            r == matching(
                self.ledger.inventories(),
                InventoryQuery::GeneratedBy { generate_inventory_id },
            ).len(),
    {
        self.ledger.count(&InventoryQuery::GeneratedBy { generate_inventory_id })
    }
}

/// One conditional update for each of `inventories` that carries an
/// identifier.
pub fn build_reservation_updates(inventories: &Vec<Inventory>) -> (r: Vec<ConditionalUpdate>)
    ensures
        r@ == reservation_updates(inventories@),
{
    let mut updates: Vec<ConditionalUpdate> = Vec::new();
    let mut i: usize = 0;
    while i < inventories.len()
        invariant
            i <= inventories@.len(),
            updates@ == reservation_updates(inventories@.take(i as int)),
        decreases inventories@.len() - i,
    {
        proof {
            lemma_identified_step(inventories@, i as int);
        }
        match inventories[i].id {
            Some(id) => {
                updates.push(
                    ConditionalUpdate {
                        id,
                        concurrency_stamp: inventories[i].concurrency_stamp.clone(),
                        status: inventories[i].status,
                        reserved_until: Some(inventories[i].reserved_until),
                    },
                );
                assert(updates@ =~= reservation_updates(inventories@.take(i + 1)));
            },
            None => {
                assert(updates@ =~= reservation_updates(inventories@.take(i + 1)));
            },
        }
        i += 1;
    }
    proof {
        assert(inventories@.take(i as int) =~= inventories@);
    }
    updates
}

/// One receipt for each of `inventories` that carries an identifier.
pub fn build_receipts(inventories: &Vec<Inventory>) -> (r: Vec<ReservedInventory>)
    ensures
        are_receipts_for(r@, inventories@),
{
    let mut receipts: Vec<ReservedInventory> = Vec::new();
    let mut i: usize = 0;
    while i < inventories.len()
        invariant
            i <= inventories@.len(),
            are_receipts_for(receipts@, inventories@.take(i as int)),
        decreases inventories@.len() - i,
    {
        proof {
            lemma_identified_step(inventories@, i as int);
        }
        match inventories[i].id {
            Some(id) => {
                receipts.push(ReservedInventory::new(id.to_hex(), inventories[i].reserved_until));
            },
            None => {},
        }
        i += 1;
    }
    proof {
        assert(inventories@.take(i as int) =~= inventories@);
    }
    receipts
}

/// The units among `units` whose update took effect: the k-th unit where the
/// k-th flag is set.
pub open spec fn written_units(units: Seq<Inventory>, matched: Seq<bool>) -> Seq<Inventory>
    decreases units.len(),
{
    if units.len() == 0 {
        Seq::empty()
    } else {
        let before = written_units(units.drop_last(), matched);
        if units.len() - 1 < matched.len() && matched[units.len() - 1] {
            before.push(units.last())
        } else {
            before
        }
    }
}

/// One receipt for each of `inventories` that carries an identifier and
/// whose update took effect, by the report of the batch that wrote them.
pub fn build_durable_receipts(inventories: &Vec<Inventory>, matched: &Vec<bool>) -> (r: Vec<
    ReservedInventory,
>)
    ensures
        are_receipts_for(r@, written_units(identified(inventories@), matched@)),
{
    let mut written: Vec<Inventory> = Vec::new();
    let mut position: usize = 0;
    let mut i: usize = 0;
    while i < inventories.len()
        invariant
            i <= inventories@.len(),
            position == identified(inventories@.take(i as int)).len(),
            position <= i,
            written@ == written_units(identified(inventories@.take(i as int)), matched@),
        decreases inventories@.len() - i,
    {
        proof {
            lemma_identified_step(inventories@, i as int);
        }
        if inventories[i].id.is_some() {
            let ghost units = identified(inventories@.take(i + 1));
            proof {
                assert(units.drop_last() =~= identified(inventories@.take(i as int)));
            }
            if position < matched.len() && matched[position] {
                written.push(inventories[i].clone());
            }
            position += 1;
        }
        i += 1;
    }
    proof {
        assert(inventories@.take(i as int) =~= inventories@);
    }
    build_receipts(&written)
}

/// Extending a prefix by one unit extends its identified units by that unit,
/// or not at all.
pub proof fn lemma_identified_step(rows: Seq<Inventory>, i: int)
    requires
        0 <= i < rows.len(),
    ensures
        identified(rows.take(i + 1)) == if rows[i].id is Some {
            identified(rows.take(i)).push(rows[i])
        } else {
            identified(rows.take(i))
        },
{
    assert(rows.take(i + 1).drop_last() =~= rows.take(i));
    assert(rows.take(i + 1).last() == rows[i]);
}

/// Units that all carry an identifier are all identified.
pub proof fn lemma_identified_all(rows: Seq<Inventory>)
    requires
        forall|i: int| 0 <= i < rows.len() ==> (#[trigger] rows[i]).id is Some,
    ensures
        identified(rows) == rows,
    decreases rows.len(),
{
    if rows.len() > 0 {
        lemma_identified_all(rows.drop_last());
        assert(rows.drop_last().push(rows.last()) =~= rows);
    }
}

/// No more units satisfy a query than there are units.
pub proof fn lemma_matching_len(rows: Seq<Inventory>, query: InventoryQuery)
    ensures
        matching(rows, query).len() <= rows.len(),
    decreases rows.len(),
{
    if rows.len() > 0 {
        lemma_matching_len(rows.drop_last(), query);
    }
}

} // verus!
