//! The worker's handler. A request for many units is served in batches of
//! at most a thousand. Before each batch the handler counts the units that
//! the ledger already holds for the request and asks only for what is
//! missing, so that a batch that is run again after a failure never takes
//! the total past what was requested.
use vstd::prelude::*;
use crate::generate_inventory_handler::model::{CreateInventoryBatch, Event};
use crate::inventories::application::{
    extended, is_created_unit, lemma_extended_transitive, InventoryService,
};
use crate::inventories::constants::GENERATION_BATCH_SIZE;
use crate::inventories::data_models::{
    GenerateInventory, GenerateInventoryStatus, Inventory, };
use crate::inventories::errors::InventoryError;
use crate::ledger::{
    contains_request_id, matching, with_request_status, InventoryQuery,
};
use crate::object_id::{parsed_object_id, ObjectId};

verus! {

/// The number of stored units that were created for a generation request.
pub open spec fn generated_count(rows: Seq<Inventory>, generate_inventory_id: ObjectId) -> nat {
    matching(rows, InventoryQuery::GeneratedBy { generate_inventory_id }).len()
}

/// The number of units that are still to be created for a request of
/// `number_to_create` units, `created` of which are stored.
pub open spec fn remaining(number_to_create: i32, created: nat) -> nat {
    if number_to_create <= created {
        0
    } else {
        (number_to_create - created) as nat
    }
}

/// The size of the next batch where `to_create` units are missing: all of
/// them, but a thousand at most.
pub open spec fn next_batch(to_create: nat) -> nat {
    if to_create <= GENERATION_BATCH_SIZE {
        to_create
    } else {
        GENERATION_BATCH_SIZE as nat
    }
}

/// The stored generation request with the identifier `id`.
pub open spec fn request_with(requests: Seq<GenerateInventory>, id: ObjectId) -> GenerateInventory {
    requests[choose|i: int| 0 <= i < requests.len() && (#[trigger] requests[i]).id == Some(id)]
}

/// The number of units that are still to be created for a request of
/// `number_to_create` units, `created` of which are stored.
pub fn remaining_to_create(number_to_create: i32, created: usize) -> (r: i32)
    ensures
        r == remaining(number_to_create, created as nat),
{
    if number_to_create <= 0 {
        0
    } else if created >= number_to_create as usize {
        0
    } else {
        number_to_create - created as i32
    }
}

/// The number of units that are missing where the difference between the
/// number requested and the number stored is `to_create`: none where the
/// difference is negative.
pub open spec fn missing_units(to_create: i32) -> nat {
    if to_create < 0 {
        0
    } else {
        to_create as nat
    }
}

/// The size of the next batch where `to_create` units are missing: all of
/// them, but a thousand at most, and none where nothing is missing.
pub fn next_batch_quantity(to_create: i32) -> (r: i32)
    ensures
        r == next_batch(missing_units(to_create)),
{
    if to_create > GENERATION_BATCH_SIZE {
        GENERATION_BATCH_SIZE
    } else if to_create < 0 {
        0
    } else {
        to_create
    }
}

/// The number of batches that create `to_create` units: as many full batches
/// as fit, and one more for what is left.
pub open spec fn batches(to_create: nat) -> nat {
    ((to_create + GENERATION_BATCH_SIZE - 1) / (GENERATION_BATCH_SIZE as int)) as nat
}

/// The size of the `k`-th batch, counted from zero, of those that create
/// `to_create` units: what is missing after `k` full batches, but a thousand
/// at most.
pub open spec fn batch_size(to_create: nat, k: nat) -> nat {
    next_batch((to_create - k * GENERATION_BATCH_SIZE) as nat)
}

/// Whether the state after the `k`-th batch is the state before it followed
/// by the units of that batch, and nothing else.
pub open spec fn is_batch(
    states: Seq<Seq<Inventory>>,
    event_id: ObjectId,
    generate_inventory_id: ObjectId,
    to_create: nat,
    k: int,
) -> bool {
    &&& extended(states[k], states[k + 1], event_id, Some(generate_inventory_id))
    &&& states[k + 1].len() == states[k].len() + batch_size(to_create, k as nat)
}

/// Whether `states` is the course of the first `count` batches of those that
/// create `to_create` units for a generation request: each state of the
/// ledger is the one before it followed by the units of one batch.
pub open spec fn is_generation_run(
    states: Seq<Seq<Inventory>>,
    event_id: ObjectId,
    generate_inventory_id: ObjectId,
    to_create: nat,
    count: int,
) -> bool {
    &&& 0 <= count <= batches(to_create)
    &&& states.len() == count + 1
    &&& forall|k: int|
        0 <= k < count ==> #[trigger] is_batch(
            states,
            event_id,
            generate_inventory_id,
            to_create,
            k,
        )
}

/// The worker's handler. It holds the inventory service, and through it the
/// ledger.
#[derive(Debug)]
pub struct GenerateInventoryHandler {
    pub inventory_service: InventoryService,
}

impl GenerateInventoryHandler {
    /// The stored units.
    pub open spec fn inventories(&self) -> Seq<Inventory> {
        self.inventory_service.inventories()
    }

    /// The stored generation requests.
    pub open spec fn generate_inventories(&self) -> Seq<GenerateInventory> {
        self.inventory_service.generate_inventories()
    }

    /// The invariant of the ledger that the handler holds.
    pub open spec fn wf(&self) -> bool {
        self.inventory_service.wf()
    }

    pub fn new(inventory_service: InventoryService) -> (r: Self)
        ensures
            r.inventory_service == inventory_service,
    {
        GenerateInventoryHandler { inventory_service }
    }

    /// One pass over a generation request: counts the units that the ledger
    /// holds for it, and creates one batch of what is missing. Returns the
    /// number of units that were still missing before the pass. Where
    /// nothing is missing, the pass creates nothing and succeeds. Fails on a
    /// malformed identifier and on a request that is not stored, with the
    /// ledger untouched. Where the store fails on a unit of the batch, the
    /// units before it stay.
    pub fn handle_pass(&mut self, generate_inventory_id: &str) -> (r: Result<i32, InventoryError>)
        requires
            old(self).wf(),
        ensures
            final(self).wf(),
            final(self).generate_inventories() == old(self).generate_inventories(),
            match parsed_object_id(generate_inventory_id@) {
                None => r matches Err(e) && e == InventoryError::MalformedId && final(
                    self).inventories() == old(self).inventories(),
                Some(id) => if !contains_request_id(old(self).generate_inventories(), id) {
                    r matches Err(e) && e == InventoryError::GenerateInventoryNotFound && final(
                        self).inventories() == old(self).inventories()
                } else {
                    let request = request_with(old(self).generate_inventories(), id);
                    let created = generated_count(old(self).inventories(), id);
                    let to_create = remaining(request.number_to_create, created);
                    &&& extended(
                        old(self).inventories(),
                        final(self).inventories(),
                        request.event_id,
                        Some(id),
                    )
                    &&& to_create == 0 ==> r is Ok
                    &&& match r {
                        Ok(missing) => {
                            &&& missing == to_create
                            &&& final(self).inventories().len() == old(self).inventories().len()
                                + next_batch(to_create)
                            &&& generated_count(final(self).inventories(), id) == created
                                + next_batch(to_create)
                        },
                        Err(e) => {
                            &&& e == InventoryError::DuplicateKey
                            &&& final(self).inventories().len() < old(self).inventories().len()
                                + next_batch(to_create)
                            &&& generated_count(final(self).inventories(), id) < created
                                + next_batch(to_create)
                        },
                    }
                },
            },
    {
        let id = match ObjectId::parse_str(generate_inventory_id) {
            Ok(id) => id,
            Err(_) => {
                return Err(InventoryError::MalformedId);
            },
        };
        let request = match self.inventory_service.inventory_repository.ledger.find_generate_inventory(
            id,
        ) {
            Some(request) => request,
            None => {
                return Err(InventoryError::GenerateInventoryNotFound);
            },
        };
        proof {
            lemma_request_with(self.generate_inventories(), id, request);
        }
        let created = self.inventory_service.inventory_repository.count_generated(id);
        let to_create = remaining_to_create(request.number_to_create, created);
        let quantity = next_batch_quantity(to_create);
        let ghost before = self.inventories();
        if quantity == 0 {
            proof {
                assert(before.take(before.len() as int) =~= before);
            }
            return Ok(to_create);
        }
        let payload = CreateInventoryBatch {
            event_id: request.event_id.to_hex(),
            quantity,
            generate_inventory_id: Some(id.to_hex()),
        };
        let data = payload.into_request();
        let outcome = self.inventory_service.add_batch(&data);
        proof {
            lemma_generated_count_extended(before, self.inventories(), request.event_id, id);
        }
        match outcome {
            Ok(()) => Ok(to_create),
            Err(e) => Err(e),
        }
    }

    /// Serves the generation request that the notification is about: creates
    /// what is missing of its units in batches of a thousand, the last batch
    /// holding what is left, and marks the request as completed. Before each
    /// batch the stored units of the request are counted. Where nothing is
    /// missing, no batch is made and the request is marked as completed.
    /// Fails on a malformed identifier and on a request that is not stored,
    /// with the ledger untouched. Where the store fails on a unit of a
    /// batch, the batches before it and the units before that unit stay, and
    /// the request stays pending; the units that the ledger holds for the
    /// request never exceed what was requested, unless they did before.
    pub fn handle(&mut self, event: &Event) -> (r: Result<(), InventoryError>)
        requires
            old(self).wf(),
        ensures
            final(self).wf(),
            match parsed_object_id(event.detail.full_document.id@) {
                None => r matches Err(e) && e == InventoryError::MalformedId && final(
                    self).inventories() == old(self).inventories() && final(
                        self).generate_inventories()
                    == old(self).generate_inventories(),
                Some(id) => if !contains_request_id(old(self).generate_inventories(), id) {
                    r matches Err(e) && e == InventoryError::GenerateInventoryNotFound && final(
                        self).inventories() == old(self).inventories() && final(
                            self).generate_inventories() == old(self).generate_inventories()
                } else {
                    let request = request_with(old(self).generate_inventories(), id);
                    let created = generated_count(old(self).inventories(), id);
                    let to_create = remaining(request.number_to_create, created);
                    &&& extended(
                        old(self).inventories(),
                        final(self).inventories(),
                        request.event_id,
                        Some(id),
                    )
                    &&& to_create == 0 ==> r is Ok
                    &&& match r {
                        Ok(_) => {
                            &&& generated_count(final(self).inventories(), id) == created
                                + to_create
                            &&& final(self).generate_inventories() == with_request_status(
                                old(self).generate_inventories(),
                                id,
                                GenerateInventoryStatus::Completed,
                            )
                            &&& exists|states: Seq<Seq<Inventory>>|
                                {
                                    &&& #[trigger] is_generation_run(
                                        states,
                                        request.event_id,
                                        id,
                                        to_create,
                                        batches(to_create) as int,
                                    )
                                    &&& states[0] == old(self).inventories()
                                    &&& states.last() == final(self).inventories()
                                }
                        },
                        Err(e) => {
                            &&& e == InventoryError::DuplicateKey
                            &&& generated_count(final(self).inventories(), id) < created
                                + to_create
                            &&& final(self).generate_inventories() == old(
                                self).generate_inventories()
                            &&& exists|states: Seq<Seq<Inventory>>, made: int|
                                {
                                    &&& #[trigger] is_generation_run(
                                        states,
                                        request.event_id,
                                        id,
                                        to_create,
                                        made,
                                    )
                                    &&& made < batches(to_create)
                                    &&& states[0] == old(self).inventories()
                                    &&& extended(
                                        states.last(),
                                        final(self).inventories(),
                                        request.event_id,
                                        Some(id),
                                    )
                                    &&& final(self).inventories().len() < states.last().len()
                                        + batch_size(to_create, made as nat)
                                }
                        },
                    }
                },
            },
    {
        let text = event.detail.full_document.id.as_str();
        let id = match ObjectId::parse_str(text) {
            Ok(id) => id,
            Err(_) => {
                return Err(InventoryError::MalformedId);
            },
        };
        let ghost before = self.inventories();
        let ghost requests = self.generate_inventories();
        let ghost known = contains_request_id(requests, id);
        let ghost request = request_with(requests, id);
        let ghost created = generated_count(before, id);
        let ghost to_create = remaining(request.number_to_create, created);
        let ghost mut states: Seq<Seq<Inventory>> = seq![before];
        let mut missing = match self.handle_pass(text) {
            Ok(missing) => missing,
            Err(e) => {
                proof {
                    if known {
                        assert(is_generation_run(states, request.event_id, id, to_create, 0));
                        assert(before.take(before.len() as int) =~= before);
                    }
                }
                return Err(e);
            },
        };
        proof {
            if missing > 0 {
                states = states.push(self.inventories());
                assert(is_batch(states, request.event_id, id, to_create, 0));
            }
        }
        while missing > GENERATION_BATCH_SIZE
            invariant
                self.wf(),
                contains_request_id(requests, id),
                text@ == event.detail.full_document.id@,
                parsed_object_id(text@) == Some(id),
                requests == old(self).generate_inventories(),
                self.generate_inventories() == requests,
                request == request_with(requests, id),
                created == generated_count(before, id),
                to_create == remaining(request.number_to_create, created),
                before == old(self).inventories(),
                extended(before, self.inventories(), request.event_id, Some(id)),
                0 <= missing <= to_create,
                states[0] == before,
                states.last() == self.inventories(),
                is_generation_run(states, request.event_id, id, to_create, states.len() - 1),
                missing == 0 ==> states.len() == 1 && to_create == 0,
                missing > 0 ==> states.len() >= 2 && to_create == missing + (states.len() - 2)
                    * GENERATION_BATCH_SIZE,
                generated_count(self.inventories(), id) == created + to_create - missing
                    + next_batch(missing as nat),
            decreases missing,
        {
            let ghost middle = self.inventories();
            let ghost made = states.len() - 1;
            let ghost earlier = states;
            match self.handle_pass(text) {
                Ok(still) => {
                    proof {
                        lemma_extended_transitive(
                            before,
                            middle,
                            self.inventories(),
                            request.event_id,
                            Some(id),
                        );
                        states = states.push(self.inventories());
                        assert(is_batch(states, request.event_id, id, to_create, made));
                        assert forall|k: int| 0 <= k < made + 1 implies #[trigger] is_batch(
                            states,
                            request.event_id,
                            id,
                            to_create,
                            k,
                        ) by {
                            if k < made {
                                assert(is_batch(earlier, request.event_id, id, to_create, k));
                                assert(states[k] == earlier[k]);
                                assert(states[k + 1] == earlier[k + 1]);
                            }
                        }
                    }
                    missing = still;
                },
                Err(e) => {
                    proof {
                        lemma_extended_transitive(
                            before,
                            middle,
                            self.inventories(),
                            request.event_id,
                            Some(id),
                        );
                        lemma_generated_count_extended(
                            before,
                            self.inventories(),
                            request.event_id,
                            id,
                        );
                        assert(is_generation_run(states, request.event_id, id, to_create, made));
                    }
                    return Err(e);
                },
            }
        }
        self.inventory_service.inventory_repository.ledger.set_generate_inventory_status(
            id,
            GenerateInventoryStatus::Completed,
        );
        proof {
            assert(is_generation_run(
                states,
                request.event_id,
                id,
                to_create,
                batches(to_create) as int,
            ));
        }
        Ok(())
    }
}

/// In a well-formed store, the request found under an identifier is the
/// request with that identifier.
pub proof fn lemma_request_with(requests: Seq<GenerateInventory>, id: ObjectId,
    request: GenerateInventory)
    requires
        crate::ledger::requests_well_formed(requests),
        requests.contains(request),
        request.id == Some(id),
    ensures
        request_with(requests, id) == request,
{
    let i = choose|i: int| 0 <= i < requests.len() && requests[i] == request;
    let j = choose|j: int| 0 <= j < requests.len() && (#[trigger] requests[j]).id == Some(id);
    assert(requests[i].id == Some(id));
    if i != j {
        assert(requests[i].id != requests[j].id);
    }
}

/// Every unit that extends the store for a request counts for that request.
pub proof fn lemma_generated_count_extended(
    before: Seq<Inventory>,
    after: Seq<Inventory>,
    event_id: ObjectId,
    generate_inventory_id: ObjectId,
)
    requires
        extended(before, after, event_id, Some(generate_inventory_id)),
    ensures
        generated_count(after, generate_inventory_id) == generated_count(
            before,
            generate_inventory_id,
        ) + after.len() - before.len(),
    decreases after.len(),
{
    if after.len() == before.len() {
        assert(after.take(before.len() as int) =~= after);
    } else {
        let shorter = after.drop_last();
        assert(shorter.take(before.len() as int) =~= after.take(before.len() as int));
        assert(extended(before, shorter, event_id, Some(generate_inventory_id))) by {
            assert forall|j: int| before.len() <= j < shorter.len() implies is_created_unit(
                #[trigger] shorter[j],
                event_id,
                Some(generate_inventory_id),
            ) by {
                assert(shorter[j] == after[j]);
            }
        }
        lemma_generated_count_extended(before, shorter, event_id, generate_inventory_id);
        assert(is_created_unit(after[after.len() - 1], event_id, Some(generate_inventory_id)));
    }
}

} // verus!
