//! The inventory service: it records generation requests, creates units in
//! batches, and reserves free units for a fixed window.
//!
//! A reservation reads its candidates and writes them back in two phases.
//! The service runs both on a ledger that it holds alone, so that nothing
//! comes between them and every receipt it hands out is for a unit that the
//! ledger has reserved. The two phases are also offered apart, for callers
//! that interleave them with other writers: there the write phase may pass
//! over a candidate whose stamp has changed, and its report says which.
use vstd::prelude::*;
use crate::helpers::{get_current_time, CLOCK_LIMIT_MILLIS};
use crate::inventories::constants::{GENERATE_INVENTORY_STATUS_PENDING, RESERVATION_WINDOW_MILLIS};
use crate::inventories::data_models::{
    GenerateInventory, GenerateInventoryStatus, Inventory, InventoryStatus,
};
use crate::inventories::data_transfer_objects::{
    CreateInventoryBatch, GenerateInventory as GenerateInventoryDto, GenerateInventoryResult,
    ReserveInventories, ReserveInventoriesResult, };
use crate::inventories::errors::InventoryError;
use crate::inventories::inventory_repository::{
    appended, are_receipts_for, build_receipts, identified, is_receipt_for,
    lemma_identified_all, query_limit, reservation_updates, InMemoryInventoryRepository,
};
use crate::ledger::{
    apply_updates, carries_generated_stamp, contains_request_id, first_matching,
    guards_generated_stamp, is_generated_stamp, is_selected, lemma_matching_from_row,
    lemma_update_selected, matched_flags, rank, stamps_rotate, updates_guard, InventoryQuery,
    TransactionReport,
};
use crate::object_id::{parsed_object_id, ObjectId};

verus! {

/// The generation request that `data` asks for, created at `now`.
pub open spec fn generate_inventory_of(data: GenerateInventoryDto, now: i64) -> Option<
    GenerateInventory,
> {
    match parsed_object_id(data.event_id@) {
        Some(event_id) => Some(
            GenerateInventory {
                id: None,
                event_id,
                number_to_create: data.number_to_create,
                status: GenerateInventoryStatus::Pending,
                created_at: now,
            },
        ),
        None => None,
    }
}

/// Whether `row` is a unit as it is created: free, without an identifier
/// yet, tied to its event and to the generation request it was created for.
/// The end of its reservation is an instant that the clock can report, and
/// its stamp is one that can be generated.
pub open spec fn is_new_unit(
    row: Inventory,
    event_id: ObjectId,
    generate_inventory_id: Option<ObjectId>,
) -> bool {
    &&& row.id is None
    &&& row.event_id == event_id
    &&& row.status == InventoryStatus::Available
    &&& row.generate_inventory_id == generate_inventory_id
    &&& 0 <= row.reserved_until < CLOCK_LIMIT_MILLIS
    &&& is_generated_stamp(row.concurrency_stamp@)
}

/// The number of units that a batch request creates.
pub open spec fn batch_quantity(quantity: i32) -> nat {
    if quantity < 0 {
        0
    } else {
        quantity as nat
    }
}

/// The identifier of the generation request that a batch names, if it names
/// one.
pub open spec fn batch_generate_inventory_id(create_inventory: CreateInventoryBatch) -> Option<
    ObjectId,
> {
    match create_inventory.generate_inventory_id {
        Some(text) => parsed_object_id(text@),
        None => None,
    }
}

/// Whether every identifier that a batch request names is well formed.
pub open spec fn batch_ids_well_formed(create_inventory: CreateInventoryBatch) -> bool {
    &&& parsed_object_id(create_inventory.event_id@) is Some
    &&& create_inventory.generate_inventory_id matches Some(text) ==> parsed_object_id(text@)
        is Some
}

/// Whether `rows` are the new units that a batch request asks for.
pub open spec fn are_new_units(rows: Seq<Inventory>,
    create_inventory: CreateInventoryBatch) -> bool {
    &&& rows.len() == batch_quantity(create_inventory.quantity)
    &&& forall|k: int|
        0 <= k < rows.len() ==> is_new_unit(
            #[trigger] rows[k],
            parsed_object_id(create_inventory.event_id@).unwrap(),
            batch_generate_inventory_id(create_inventory),
        )
}

/// Whether `row` is a stored unit as it was created: free, under an
/// identifier, tied to its event and to the generation request it was
/// created for. The end of its reservation is an instant that the clock can
/// report, and its stamp is one that can be generated.
pub open spec fn is_created_unit(
    row: Inventory,
    event_id: ObjectId,
    generate_inventory_id: Option<ObjectId>,
) -> bool {
    &&& row.id is Some
    &&& row.event_id == event_id
    &&& row.status == InventoryStatus::Available
    &&& row.generate_inventory_id == generate_inventory_id
    &&& 0 <= row.reserved_until < CLOCK_LIMIT_MILLIS
    &&& is_generated_stamp(row.concurrency_stamp@)
}

/// Whether `after` is `before` followed by newly created units, and nothing
/// else.
pub open spec fn extended(
    before: Seq<Inventory>,
    after: Seq<Inventory>,
    event_id: ObjectId,
    generate_inventory_id: Option<ObjectId>,
) -> bool {
    &&& before.len() <= after.len()
    &&& after.take(before.len() as int) == before
    &&& forall|j: int|
        before.len() <= j < after.len() ==> is_created_unit(
            #[trigger] after[j],
            event_id,
            generate_inventory_id,
        )
}

/// `found` with every unit marked as reserved until `until`.
pub open spec fn mark_reserved(found: Seq<Inventory>, until: i64) -> Seq<Inventory> {
    Seq::new(
        found.len(),
        |k: int|
            Inventory {
                status: InventoryStatus::Reserved,
                reserved_until: until,
                ..found[k]
            },
    )
}

/// Whether `after` is `before` reserved until `until`: the state and the end
/// of the reservation are set, the stamp has changed, and the rest is as it
/// was.
pub open spec fn is_reserved_from(after: Inventory, before: Inventory, until: i64) -> bool {
    &&& after.id == before.id
    &&& after.event_id == before.event_id
    &&& after.generate_inventory_id == before.generate_inventory_id
    &&& after.status == InventoryStatus::Reserved
    &&& after.reserved_until == until
    &&& after.concurrency_stamp@ != before.concurrency_stamp@
}

/// Whether `after` is `before` with exactly the first `limit` units that
/// satisfy `query` reserved until `until`, and every other unit untouched.
pub open spec fn reserved_selected(
    before: Seq<Inventory>,
    after: Seq<Inventory>,
    query: InventoryQuery,
    limit: nat,
    until: i64,
) -> bool {
    &&& after.len() == before.len()
    &&& forall|i: int|
        0 <= i < before.len() ==> if is_selected(before, query, limit, i) {
            is_reserved_from(#[trigger] after[i], before[i], until)
        } else {
            after[i] == before[i]
        }
}

/// The candidates of a reservation request at `now`: the first units of the
/// event, as many as requested, that no reservation holds.
pub open spec fn candidates(
    rows: Seq<Inventory>,
    event_id: ObjectId,
    quantity: i32,
    now: i64,
) -> Seq<Inventory> {
    first_matching(
        rows,
        InventoryQuery::Unreserved { event_id, cut_off: now },
        query_limit(quantity as i64),
    )
}

/// What the read phase of a reservation returns on `rows` at `now`: the
/// candidates marked as reserved, where there are as many as requested.
pub open spec fn prepared_reservation(
    rows: Seq<Inventory>,
    reserve_inventories: ReserveInventories,
    now: i64,
) -> Result<Seq<Inventory>, InventoryError> {
    match parsed_object_id(reserve_inventories.event_id@) {
        None => Err(InventoryError::MalformedId),
        Some(event_id) => {
            let found = candidates(rows, event_id, reserve_inventories.quantity, now);
            if found.len() != reserve_inventories.quantity {
                Err(
                    InventoryError::InsufficientInventory {
                        requested: reserve_inventories.quantity,
                        found: found.len() as usize,
                    },
                )
            } else {
                Ok(mark_reserved(found, (now + RESERVATION_WINDOW_MILLIS) as i64))
            }
        },
    }
}

/// The generation request that `data` asks for, created at `now`. Fails
/// where the event identifier is malformed.
pub fn map_generate_inventory(data: &GenerateInventoryDto, now: i64) -> (r: Result<
    GenerateInventory,
    InventoryError,
>)
    ensures
        match generate_inventory_of(*data, now) {
            Some(request) => r == Ok::<GenerateInventory, InventoryError>(request),
            None => r == Err::<GenerateInventory, InventoryError>(InventoryError::MalformedId),
        },
{
    match ObjectId::parse_str(data.event_id.as_str()) {
        Ok(event_id) => Ok(
            GenerateInventory {
                id: None,
                event_id,
                number_to_create: data.number_to_create,
                status: GenerateInventoryStatus::Pending,
                created_at: now,
            },
        ),
        Err(_) => Err(InventoryError::MalformedId),
    }
}

/// A unit as it is created: free, without an identifier yet.
pub fn new_inventory(
    event_id: ObjectId,
    generate_inventory_id: Option<ObjectId>,
    now: i64,
    concurrency_stamp: String,
) -> (r: Inventory)
    ensures
        r == (Inventory {
            id: None,
            event_id,
            status: InventoryStatus::Available,
            reserved_until: now,
            generate_inventory_id,
            concurrency_stamp,
        }),
{
    Inventory {
        id: None,
        event_id,
        status: InventoryStatus::Available,
        reserved_until: now,
        generate_inventory_id,
        concurrency_stamp,
    }
}

/// The new units that a batch request asks for, each with a newly generated
/// stamp. Fails where an identifier that the request names is malformed.
pub fn map_create_inventory_to_inventories(create_inventory: &CreateInventoryBatch) -> (r: Result<
    Vec<Inventory>,
    InventoryError,
>)
    ensures
        r is Ok <==> batch_ids_well_formed(*create_inventory),
        r matches Ok(rows) ==> are_new_units(rows@, *create_inventory),
        r matches Err(e) ==> e == InventoryError::MalformedId,
{
    let event_id = match ObjectId::parse_str(create_inventory.event_id.as_str()) {
        Ok(event_id) => event_id,
        Err(_) => {
            return Err(InventoryError::MalformedId);
        },
    };
    let generate_inventory_id = match &create_inventory.generate_inventory_id {
        Some(text) => match ObjectId::parse_str(text.as_str()) {
            Ok(id) => Some(id),
            Err(_) => {
                return Err(InventoryError::MalformedId);
            },
        },
        None => None,
    };
    let mut inventories: Vec<Inventory> = Vec::new();
    let mut i: i32 = 0;
    while i < create_inventory.quantity
        invariant
            0 <= i,
            i <= create_inventory.quantity || (create_inventory.quantity < 0 && i == 0),
            inventories@.len() == i,
            parsed_object_id(create_inventory.event_id@) == Some(event_id),
            batch_generate_inventory_id(*create_inventory) == generate_inventory_id,
            forall|k: int|
                0 <= k < inventories@.len() ==> is_new_unit(
                    #[trigger] inventories@[k],
                    event_id,
                    generate_inventory_id,
                ),
        decreases create_inventory.quantity - i,
    {
        let stamp = ObjectId::new();
        let row = new_inventory(
            event_id,
            generate_inventory_id,
            get_current_time(),
            stamp.to_hex(),
        );
        assert(is_generated_stamp(row.concurrency_stamp@));
        inventories.push(row);
        i += 1;
    }
    Ok(inventories)
}

/// Decides on the candidates that were read for a reservation of `quantity`
/// units at `now`: where they are as many as requested, they are marked as
/// reserved until the end of the reservation window; where they are not,
/// the reservation fails with the number requested and the number found.
pub fn reserve_candidates(found: Vec<Inventory>, quantity: i32, now: i64) -> (r: Result<
    Vec<Inventory>,
    InventoryError,
>)
    requires
        now + RESERVATION_WINDOW_MILLIS <= i64::MAX,
    ensures
        found@.len() != quantity ==> r == Err::<Vec<Inventory>, InventoryError>(
            InventoryError::InsufficientInventory { requested: quantity, found: found@.len(
                ) as usize },
        ),
        found@.len() == quantity ==> (r matches Ok(marked) && marked@ == mark_reserved(
            found@,
            (now + RESERVATION_WINDOW_MILLIS) as i64,
        )),
{
    let reserved_until = now + RESERVATION_WINDOW_MILLIS;
    if quantity < 0 || found.len() != quantity as usize {
        return Err(InventoryError::InsufficientInventory { requested: quantity, found: found.len(
            ) });
    }
    let mut inventories: Vec<Inventory> = Vec::new();
    let mut i: usize = 0;
    while i < found.len()
        invariant
            i <= found@.len(),
            inventories@ == mark_reserved(found@.take(i as int), reserved_until),
        decreases found@.len() - i,
    {
        inventories.push(
            Inventory {
                id: found[i].id,
                event_id: found[i].event_id,
                status: InventoryStatus::Reserved,
                reserved_until,
                generate_inventory_id: found[i].generate_inventory_id,
                concurrency_stamp: found[i].concurrency_stamp.clone(),
            },
        );
        assert(inventories@ =~= mark_reserved(found@.take(i + 1), reserved_until));
        i += 1;
    }
    proof {
        assert(found@.take(i as int) =~= found@);
    }
    Ok(inventories)
}

/// Whether `r` and `after` are the outcome of a reservation request on the
/// ledger `before` at `now`. Where the read phase fails, its failure is
/// returned and the ledger is as it was. Otherwise, on success, there is a
/// receipt for each candidate, in order, and exactly the candidates are
/// reserved until the end of the reservation window; and the request fails
/// only where the ledger aborts the batch, which leaves the ledger as it
/// was and takes a candidate with a stamp that can be generated.
pub open spec fn is_reservation_outcome(
    r: Result<ReserveInventoriesResult, InventoryError>,
    before: Seq<Inventory>,
    after: Seq<Inventory>,
    reserve_inventories: ReserveInventories,
    now: i64,
) -> bool {
    match prepared_reservation(before, reserve_inventories, now) {
        Err(e) => r matches Err(f) && f == e && after == before,
        Ok(marked) => {
            let found = candidates(
                before,
                parsed_object_id(reserve_inventories.event_id@).unwrap(),
                reserve_inventories.quantity,
                now,
            );
            match r {
                Ok(result) => {
                    &&& are_receipts_for(result.reserved_inventories@, marked)
                    &&& result.reserved_inventories@.len() == reserve_inventories.quantity
                    &&& forall|k: int|
                        0 <= k < result.reserved_inventories@.len() ==> is_receipt_for(
                            #[trigger] result.reserved_inventories@[k],
                            marked[k],
                        ) && marked[k].reserved_until == now + RESERVATION_WINDOW_MILLIS
                            && marked[k].id == found[k].id
                    &&& reserved_selected(
                        before,
                        after,
                        InventoryQuery::Unreserved {
                            event_id: parsed_object_id(reserve_inventories.event_id@).unwrap(),
                            cut_off: now,
                        },
                        query_limit(reserve_inventories.quantity as i64),
                        (now + RESERVATION_WINDOW_MILLIS) as i64,
                    )
                },
                Err(e) => e == InventoryError::TransactionAborted && after == before
                    && carries_generated_stamp(found),
            }
        },
    }
}

/// Whether `r` and the requests `after` are the outcome of a generation
/// request at `now` on the stored requests `before`. On success the request
/// is stored last, pending, created at `now`, under an identifier that was
/// not taken, and the receipt names it. On failure nothing is stored: a
/// request for less than one unit is refused first, then a malformed event
/// identifier; any other request fails only where the generated identifier
/// is taken, which takes a stored request.
pub open spec fn is_generate_outcome(
    r: Result<GenerateInventoryResult, InventoryError>,
    before: Seq<GenerateInventory>,
    after: Seq<GenerateInventory>,
    data: GenerateInventoryDto,
    now: i64,
) -> bool {
    match r {
        Ok(receipt) => {
            &&& data.number_to_create >= 1
            &&& generate_inventory_of(data, now) matches Some(request)
            &&& parsed_object_id(receipt.id@) matches Some(id)
            &&& !contains_request_id(before, id)
            &&& after == before.push(GenerateInventory { id: Some(id), ..request })
            &&& receipt.satus@ == GENERATE_INVENTORY_STATUS_PENDING@
        },
        Err(e) => {
            &&& after == before
            &&& e == if data.number_to_create < 1 {
                InventoryError::InvalidQuantity
            } else if parsed_object_id(data.event_id@) is None {
                InventoryError::MalformedId
            } else {
                InventoryError::DuplicateKey
            }
            &&& e == InventoryError::DuplicateKey ==> before.len() > 0
        },
    }
}

/// The inventory service. It holds the repository, and through it the
/// ledger.
#[derive(Debug)]
pub struct InventoryService {
    pub inventory_repository: InMemoryInventoryRepository,
}

impl InventoryService {
    /// The stored units.
    pub open spec fn inventories(&self) -> Seq<Inventory> {
        self.inventory_repository.ledger.inventories()
    }

    /// The stored generation requests.
    pub open spec fn generate_inventories(&self) -> Seq<GenerateInventory> {
        self.inventory_repository.ledger.generate_inventories()
    }

    /// The invariant of the ledger that the service holds.
    pub open spec fn wf(&self) -> bool {
        self.inventory_repository.ledger.wf()
    }

    pub fn new(inventory_repository: InMemoryInventoryRepository) -> (r: Self)
        ensures
            r.inventory_repository == inventory_repository,
    {
        InventoryService { inventory_repository }
    }

    /// Records, at `now`, a pending request to create units for an event, and
    /// returns its receipt. Refuses a request for less than one unit, then a
    /// malformed event identifier; in both cases nothing is stored. Fails
    /// otherwise only where the generated identifier is taken, which it
    /// never is in a store without requests.
    pub fn generate_at(&mut self, data: &GenerateInventoryDto, now: i64) -> (r: Result<
        GenerateInventoryResult,
        InventoryError,
    >)
        requires
            old(self).wf(),
        ensures
            final(self).wf(),
            final(self).inventories() == old(self).inventories(),
            data.number_to_create < 1 ==> (r matches Err(e) && e
                == InventoryError::InvalidQuantity),
            data.number_to_create >= 1 && parsed_object_id(data.event_id@) is None ==> (
                r matches Err(e)
                && e == InventoryError::MalformedId),
            data.number_to_create >= 1 && parsed_object_id(data.event_id@) is Some && old(
                self,
            ).generate_inventories().len() == 0 ==> r is Ok,
            is_generate_outcome(
                r,
                old(self).generate_inventories(),
                final(self).generate_inventories(),
                *data,
                now,
            ),
    {
        if data.number_to_create < 1 {
            return Err(InventoryError::InvalidQuantity);
        }
        let generate_inventory = match map_generate_inventory(data, now) {
            Ok(generate_inventory) => generate_inventory,
            Err(e) => {
                return Err(e);
            },
        };
        match self.inventory_repository.add_generate_inventory(&generate_inventory) {
            Ok(id) => Ok(
                GenerateInventoryResult { id, satus: generate_inventory.status.to_string() },
            ),
            Err(e) => Err(InventoryError::from_ledger(e)),
        }
    }

    /// Records a pending request to create units for an event, at the
    /// current time, and returns its receipt.
    pub fn generate_async(&mut self, data: &GenerateInventoryDto) -> (r: Result<
        GenerateInventoryResult,
        InventoryError,
    >)
        requires
            old(self).wf(),
        ensures
            final(self).wf(),
            final(self).inventories() == old(self).inventories(),
            data.number_to_create < 1 ==> (r matches Err(e) && e
                == InventoryError::InvalidQuantity),
            data.number_to_create >= 1 && parsed_object_id(data.event_id@) is None ==> (
                r matches Err(e)
                && e == InventoryError::MalformedId),
            data.number_to_create >= 1 && parsed_object_id(data.event_id@) is Some && old(
                self,
            ).generate_inventories().len() == 0 ==> r is Ok,
            exists|now: i64|
                #[trigger] is_generate_outcome(
                    r,
                    old(self).generate_inventories(),
                    final(self).generate_inventories(),
                    *data,
                    now,
                ),
    {
        let ghost before = self.generate_inventories();
        let now = get_current_time();
        let r = self.generate_at(data, now);
        proof {
            if r is Ok {
                assert(self.generate_inventories().drop_last() =~= before);
            }
            assert(is_generate_outcome(r, before, self.generate_inventories(), *data, now));
        }
        r
    }

    /// Creates the units that a batch request asks for. Refuses a request
    /// with a malformed identifier before anything is stored. The insert is
    /// not atomic: where the store fails on a unit, the units before it stay.
    /// A well-formed request for no units always succeeds.
    pub fn add_batch(&mut self, data: &CreateInventoryBatch) -> (r: Result<(), InventoryError>)
        requires
            old(self).wf(),
        ensures
            final(self).wf(),
            final(self).generate_inventories() == old(self).generate_inventories(),
            !batch_ids_well_formed(*data) ==> (r matches Err(e) && e == InventoryError::MalformedId
                && final(self).inventories() == old(self).inventories()),
            batch_ids_well_formed(*data) ==> extended(
                old(self).inventories(),
                final(self).inventories(),
                parsed_object_id(data.event_id@).unwrap(),
                batch_generate_inventory_id(*data),
            ),
            batch_ids_well_formed(*data) && batch_quantity(data.quantity) == 0 ==> r is Ok,
            r is Ok ==> {
                &&& batch_ids_well_formed(*data)
                &&& final(self).inventories().len() == old(self).inventories().len()
                    + batch_quantity(data.quantity)
            },
            r matches Err(e) ==> {
                &&& e == InventoryError::MalformedId || e == InventoryError::DuplicateKey
                &&& e == InventoryError::MalformedId <==> !batch_ids_well_formed(*data)
                &&& e == InventoryError::DuplicateKey ==> final(self).inventories().len() < old(
                    self,
                ).inventories().len() + batch_quantity(data.quantity)
            },
    {
        let inventories = match map_create_inventory_to_inventories(data) {
            Ok(inventories) => inventories,
            Err(e) => {
                return Err(e);
            },
        };
        let ghost rows = inventories@;
        match self.inventory_repository.add_batch(inventories) {
            Ok(()) => {
                proof {
                    lemma_appended_extended(
                        old(self).inventories(),
                        self.inventories(),
                        rows,
                        parsed_object_id(data.event_id@).unwrap(),
                        batch_generate_inventory_id(*data),
                    );
                }
                Ok(())
            },
            Err(e) => {
                proof {
                    let n = choose|n: int|
                        0 <= n < rows.len() && #[trigger] appended(
                            old(self).inventories(),
                            self.inventories(),
                            rows.take(n),
                        );
                    assert forall|k: int| 0 <= k < rows.take(n).len() implies is_new_unit(
                        #[trigger] rows.take(n)[k],
                        parsed_object_id(data.event_id@).unwrap(),
                        batch_generate_inventory_id(*data),
                    ) by {
                        assert(rows.take(n)[k] == rows[k]);
                    }
                    lemma_appended_extended(
                        old(self).inventories(),
                        self.inventories(),
                        rows.take(n),
                        parsed_object_id(data.event_id@).unwrap(),
                        batch_generate_inventory_id(*data),
                    );
                }
                Err(InventoryError::from_ledger(e))
            },
        }
    }

    /// The read phase of a reservation at `now`: selects the candidates and
    /// marks them as reserved for the reservation window. Writes nothing.
    /// Fails on a malformed event identifier, and where the candidates are
    /// not as many as requested.
    pub fn prepare_reservation(&self, reserve_inventories: &ReserveInventories, now: i64) -> (r:
        Result<Vec<Inventory>, InventoryError>)
        requires
            now + RESERVATION_WINDOW_MILLIS <= i64::MAX,
        ensures
            match prepared_reservation(self.inventories(), *reserve_inventories, now) {
                Ok(marked) => r matches Ok(inventories) && inventories@ == marked,
                Err(e) => r matches Err(f) && f == e,
            },
    {
        let found = match self.inventory_repository.get_unreserved_inventories(
            reserve_inventories.event_id.clone(),
            reserve_inventories.quantity as i64,
            now,
        ) {
            Ok(found) => found,
            Err(e) => {
                return Err(e);
            },
        };
        reserve_candidates(found, reserve_inventories.quantity, now)
    }

    /// The write phase of a reservation: writes the marked units back in one
    /// atomic batch, each guarded by the stamp it was read with, and returns
    /// a receipt for every one of them together with the report of the
    /// batch. A unit that another writer has touched since it was read is
    /// passed over; the report says which units were written.
    pub fn commit_reservation(&mut self, inventories: &Vec<Inventory>) -> (r: Result<
        (ReserveInventoriesResult, TransactionReport),
        InventoryError,
    >)
        requires
            old(self).wf(),
        ensures
            final(self).wf(),
            final(self).generate_inventories() == old(self).generate_inventories(),
            reservation_updates(inventories@).len() == 0 ==> r is Ok,
            !guards_generated_stamp(reservation_updates(inventories@)) ==> r is Ok,
            r matches Ok(done) ==> {
                &&& are_receipts_for(done.0.reserved_inventories@, inventories@)
                &&& stamps_rotate(reservation_updates(inventories@), done.1.stamps@)
                &&& final(self).inventories() == apply_updates(
                    old(self).inventories(),
                    reservation_updates(inventories@),
                    done.1.stamps@,
                )
                &&& done.1.matched@ == matched_flags(
                    old(self).inventories(),
                    reservation_updates(inventories@),
                    done.1.stamps@,
                )
            },
            r matches Err(e) ==> e == InventoryError::TransactionAborted && final(self).inventories(
                ) == old(self).inventories(),
    {
        match self.inventory_repository.batch_update_reservations(inventories) {
            Ok(report) => Ok(
                (ReserveInventoriesResult { reserved_inventories: build_receipts(inventories) },
                    report),
            ),
            Err(e) => Err(InventoryError::from_ledger(e)),
        }
    }

    /// Reserves, at `now`, as many free units of an event as requested, until
    /// the end of the reservation window, and returns a receipt for each.
    /// Fails on a malformed event identifier before it reads anything, and
    /// with `InsufficientInventory` where fewer units are free than
    /// requested; in both cases, and where the ledger aborts the batch, the
    /// ledger is left as it was. A request for no units of a well-named
    /// event always succeeds, and so does a request that finds its
    /// candidates where none of them carries a stamp that can be generated.
    pub fn reserve_inventories_at(&mut self, reserve_inventories: &ReserveInventories,
        now: i64) -> (r:
        Result<ReserveInventoriesResult, InventoryError>)
        requires
            old(self).wf(),
            now + RESERVATION_WINDOW_MILLIS <= i64::MAX,
        ensures
            final(self).wf(),
            final(self).generate_inventories() == old(self).generate_inventories(),
            parsed_object_id(reserve_inventories.event_id@) is Some && reserve_inventories.quantity
                == 0 ==> r is Ok,
            prepared_reservation(old(self).inventories(), *reserve_inventories, now) is Ok
                && !carries_generated_stamp(
                candidates(
                    old(self).inventories(),
                    parsed_object_id(reserve_inventories.event_id@).unwrap(),
                    reserve_inventories.quantity,
                    now,
                ),
            ) ==> r is Ok,
            is_reservation_outcome(
                r,
                old(self).inventories(),
                final(self).inventories(),
                *reserve_inventories,
                now,
            ),
    {
        let inventories = match self.prepare_reservation(reserve_inventories, now) {
            Ok(inventories) => inventories,
            Err(e) => {
                return Err(e);
            },
        };
        match self.commit_reservation(&inventories) {
            Ok(done) => {
                proof {
                    lemma_reservation_writes_selected(
                        old(self).inventories(),
                        parsed_object_id(reserve_inventories.event_id@).unwrap(),
                        reserve_inventories.quantity,
                        now,
                        done.1.stamps@,
                    );
                    lemma_candidates_identified(
                        old(self).inventories(),
                        parsed_object_id(reserve_inventories.event_id@).unwrap(),
                        reserve_inventories.quantity,
                        now,
                    );
                    lemma_identified_all(inventories@);
                }
                Ok(done.0)
            },
            Err(e) => {
                proof {
                    let event_id = parsed_object_id(reserve_inventories.event_id@).unwrap();
                    let found = candidates(
                        old(self).inventories(),
                        event_id,
                        reserve_inventories.quantity,
                        now,
                    );
                    lemma_candidates_identified(
                        old(self).inventories(),
                        event_id,
                        reserve_inventories.quantity,
                        now,
                    );
                    lemma_identified_all(inventories@);
                    let updates = reservation_updates(inventories@);
                    let k = choose|k: int|
                        0 <= k < updates.len() && is_generated_stamp(
                            (#[trigger] updates[k]).concurrency_stamp@,
                        );
                    assert(updates[k].concurrency_stamp == found[k].concurrency_stamp);
                    assert(is_generated_stamp(found[k].concurrency_stamp@));
                }
                Err(e)
            },
        }
    }

    /// Reserves, at the current time, as many free units of an event as
    /// requested, and returns a receipt for each. Fails on a malformed event
    /// identifier, and with `InsufficientInventory` where fewer units are
    /// free than requested; in both cases, and where the ledger aborts the
    /// batch, the ledger is left as it was.
    pub fn reserve_inventories(&mut self, reserve_inventories: &ReserveInventories) -> (r: Result<
        ReserveInventoriesResult,
        InventoryError,
    >)
        requires
            old(self).wf(),
        ensures
            final(self).wf(),
            final(self).generate_inventories() == old(self).generate_inventories(),
            parsed_object_id(reserve_inventories.event_id@) is None ==> (r matches Err(e) && e
                == InventoryError::MalformedId),
            parsed_object_id(reserve_inventories.event_id@) is Some && reserve_inventories.quantity
                == 0 ==> r is Ok,
            r is Err ==> final(self).inventories() == old(self).inventories(),
            exists|now: i64|
                #[trigger] is_reservation_outcome(
                    r,
                    old(self).inventories(),
                    final(self).inventories(),
                    *reserve_inventories,
                    now,
                ),
    {
        let now = get_current_time();
        let r = self.reserve_inventories_at(reserve_inventories, now);
        proof {
            assert(is_reservation_outcome(
                r,
                old(self).inventories(),
                self.inventories(),
                *reserve_inventories,
                now,
            ));
        }
        r
    }
}

/// New units that the store has appended extend it with created units.
pub proof fn lemma_appended_extended(
    before: Seq<Inventory>,
    after: Seq<Inventory>,
    rows: Seq<Inventory>,
    event_id: ObjectId,
    generate_inventory_id: Option<ObjectId>,
)
    requires
        appended(before, after, rows),
        forall|k: int|
            0 <= k < rows.len() ==> is_new_unit(#[trigger] rows[k], event_id,
                generate_inventory_id),
    ensures
        extended(before, after, event_id, generate_inventory_id),
        after.len() == before.len() + rows.len(),
{
    assert forall|j: int| before.len() <= j < after.len() implies is_created_unit(
        #[trigger] after[j],
        event_id,
        generate_inventory_id,
    ) by {
        let k = j - before.len();
        assert(after[before.len() + k].id is Some);
        assert(is_new_unit(rows[k], event_id, generate_inventory_id));
    }
}

/// Extending twice is extending once.
pub proof fn lemma_extended_transitive(
    first: Seq<Inventory>,
    second: Seq<Inventory>,
    third: Seq<Inventory>,
    event_id: ObjectId,
    generate_inventory_id: Option<ObjectId>,
)
    requires
        extended(first, second, event_id, generate_inventory_id),
        extended(second, third, event_id, generate_inventory_id),
    ensures
        extended(first, third, event_id, generate_inventory_id),
{
    assert(third.take(first.len() as int) =~= third.take(second.len() as int).take(
        first.len() as int,
    ));
    assert forall|j: int| first.len() <= j < third.len() implies is_created_unit(
        #[trigger] third[j],
        event_id,
        generate_inventory_id,
    ) by {
        if j < second.len() {
            assert(third.take(second.len() as int)[j] == second[j]);
        }
    }
}

/// The candidates of a reservation are stored units: each carries an
/// identifier.
pub proof fn lemma_candidates_identified(
    rows: Seq<Inventory>,
    event_id: ObjectId,
    quantity: i32,
    now: i64,
)
    requires
        crate::ledger::inventories_well_formed(rows),
    ensures
        forall|k: int|
            0 <= k < candidates(rows, event_id, quantity, now).len() ==> (#[trigger] candidates(
                rows,
                event_id,
                quantity,
                now,
            )[k]).id is Some,
{
    let query = InventoryQuery::Unreserved { event_id, cut_off: now };
    let found = candidates(rows, event_id, quantity, now);
    assert forall|k: int| 0 <= k < found.len() implies (#[trigger] found[k]).id is Some by {
        let i = lemma_matching_from_row(rows, query, k);
    }
}

/// The write phase of a reservation, run on the ledger that its read phase
/// saw, writes exactly the candidates: each becomes reserved until the end
/// of the window under a new stamp, and no other unit changes.
pub proof fn lemma_reservation_writes_selected(
    rows: Seq<Inventory>,
    event_id: ObjectId,
    quantity: i32,
    now: i64,
    stamps: Seq<String>,
)
    requires
        crate::ledger::inventories_well_formed(rows),
        now + RESERVATION_WINDOW_MILLIS <= i64::MAX,
        stamps_rotate(
            reservation_updates(
                mark_reserved(
                    candidates(rows, event_id, quantity, now),
                    (now + RESERVATION_WINDOW_MILLIS) as i64,
                ),
            ),
            stamps,
        ),
    ensures
        reserved_selected(
            rows,
            apply_updates(
                rows,
                reservation_updates(
                    mark_reserved(
                        candidates(rows, event_id, quantity, now),
                        (now + RESERVATION_WINDOW_MILLIS) as i64,
                    ),
                ),
                stamps,
            ),
            InventoryQuery::Unreserved { event_id, cut_off: now },
            query_limit(quantity as i64),
            (now + RESERVATION_WINDOW_MILLIS) as i64,
        ),
        identified(
            mark_reserved(
                candidates(rows, event_id, quantity, now),
                (now + RESERVATION_WINDOW_MILLIS) as i64,
            ),
        ).len() == candidates(rows, event_id, quantity, now).len(),
        forall|k: int|
            0 <= k < candidates(rows, event_id, quantity, now).len() ==> #[trigger] matched_flags(
                rows,
                reservation_updates(
                    mark_reserved(
                        candidates(rows, event_id, quantity, now),
                        (now + RESERVATION_WINDOW_MILLIS) as i64,
                    ),
                ),
                stamps,
            )[k],
{
    let query = InventoryQuery::Unreserved { event_id, cut_off: now };
    let limit = query_limit(quantity as i64);
    let until = (now + RESERVATION_WINDOW_MILLIS) as i64;
    let found = candidates(rows, event_id, quantity, now);
    let marked = mark_reserved(found, until);
    let updates = reservation_updates(marked);
    lemma_candidates_identified(rows, event_id, quantity, now);
    lemma_identified_all(marked);
    assert(updates_guard(found, updates));
    lemma_update_selected(rows, query, limit, updates, stamps);
    let after = apply_updates(rows, updates, stamps);
    assert forall|i: int| 0 <= i < rows.len() implies if is_selected(rows, query, limit, i) {
        is_reserved_from(#[trigger] after[i], rows[i], until)
    } else {
        after[i] == rows[i]
    } by {
        if is_selected(rows, query, limit, i) {
            let k = rank(rows, query, i) as int;
            assert(after[i] == updates[k].write(rows[i], stamps[k]));
            crate::ledger::lemma_matching_at_rank(rows, query, i);
            assert(found[k] == rows[i]);
            assert(updates[k].concurrency_stamp@ == rows[i].concurrency_stamp@);
        }
    }
}

} // verus!
