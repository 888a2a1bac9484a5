//! What holds of reservations and sweeps, whatever the ledger holds.
use vstd::prelude::*;
use crate::inventories::application::{
    candidates, mark_reserved, prepared_reservation, reserved_selected,
};
use crate::inventories::data_models::{Inventory, InventoryStatus};
use crate::inventories::data_transfer_objects::ReserveInventories;
use crate::inventories::errors::InventoryError;
use crate::generate_inventory_handler::generate_inventory::{
    batch_size, batches, next_batch, remaining,
};
use crate::inventories::constants::GENERATION_BATCH_SIZE;
use crate::inventories::inventory_repository::{query_limit, reservation_updates};
use crate::inventory_keeper::application::{is_resolved_from, lapsed_page, lapsed_query, swept};
use crate::inventory_keeper::persistence::SWEEP_PAGE_SIZE;
use crate::ledger::{
    apply_update, apply_updates, inventories_well_formed, is_selected, lemma_apply_updates_step,
    lemma_matching_at_rank, lemma_none_matching, matched_flags, matching, rank, stamps_rotate,
    ConditionalUpdate, InventoryQuery,
};
use crate::object_id::{parsed_object_id, ObjectId};
use crate::orders::data_models::{is_ordered, OrderTransactionView};

verus! {

/// The units of an event that no reservation holds at `now`.
pub open spec fn available_units(rows: Seq<Inventory>, event_id: ObjectId, now: i64) -> Seq<
    Inventory,
> {
    matching(rows, InventoryQuery::Unreserved { event_id, cut_off: now })
}

/// A request for more units than are free fails with
/// `InsufficientInventory`, which names the number requested and the number
/// found. (The reservation then leaves the ledger as it was: see
/// `InventoryService::reserve_inventories_at`.)
pub proof fn law_insufficient_inventory(
    rows: Seq<Inventory>,
    reserve_inventories: ReserveInventories,
    now: i64,
)
    requires
        parsed_object_id(reserve_inventories.event_id@) is Some,
        available_units(
            rows,
            parsed_object_id(reserve_inventories.event_id@).unwrap(),
            now,
        ).len() < reserve_inventories.quantity,
    ensures
        prepared_reservation(rows, reserve_inventories, now) == Err::<
            Seq<Inventory>,
            InventoryError,
        >(
            InventoryError::InsufficientInventory {
                requested: reserve_inventories.quantity,
                found: available_units(
                    rows,
                    parsed_object_id(reserve_inventories.event_id@).unwrap(),
                    now,
                ).len() as usize,
            },
        ),
{
}

/// A request for no more units than are free passes the read phase: it
/// finds exactly as many candidates as requested.
pub proof fn law_sufficient_inventory(
    rows: Seq<Inventory>,
    reserve_inventories: ReserveInventories,
    now: i64,
)
    requires
        parsed_object_id(reserve_inventories.event_id@) is Some,
        0 <= reserve_inventories.quantity <= available_units(
            rows,
            parsed_object_id(reserve_inventories.event_id@).unwrap(),
            now,
        ).len(),
    ensures
        prepared_reservation(rows, reserve_inventories, now) is Ok,
        candidates(
            rows,
            parsed_object_id(reserve_inventories.event_id@).unwrap(),
            reserve_inventories.quantity,
            now,
        ).len() == reserve_inventories.quantity,
{
}

/// A reservation moves units only from free to `Reserved`: a unit that it
/// changes was `Available`, or held by a lapsed reservation, and is
/// `Reserved` afterwards.
pub proof fn law_reservation_transitions(
    before: Seq<Inventory>,
    after: Seq<Inventory>,
    event_id: ObjectId,
    quantity: i32,
    now: i64,
    until: i64,
    i: int,
)
    requires
        reserved_selected(
            before,
            after,
            InventoryQuery::Unreserved { event_id, cut_off: now },
            query_limit(quantity as i64),
            until,
        ),
        0 <= i < before.len(),
        after[i] != before[i],
    ensures
        before[i].event_id == event_id,
        before[i].is_unreserved(now as int),
        after[i].status == InventoryStatus::Reserved,
        after[i].reserved_until == until,
{
}

/// A sweep moves units only from `Reserved` to `Sold` or `Available`: a unit
/// that it changes was held by a lapsed reservation, and is `Sold` or
/// `Available` afterwards.
pub proof fn law_sweep_transitions(
    before: Seq<Inventory>,
    after: Seq<Inventory>,
    orders: Seq<OrderTransactionView>,
    now: i64,
    i: int,
)
    requires
        swept(before, after, orders, now),
        0 <= i < before.len(),
        after[i] != before[i],
    ensures
        before[i].is_lapsed(now as int),
        after[i].status == InventoryStatus::Sold || after[i].status == InventoryStatus::Available,
{
}

/// `Sold` is terminal: neither a reservation nor a sweep changes a sold
/// unit.
pub proof fn law_sold_is_terminal(
    before: Seq<Inventory>,
    after: Seq<Inventory>,
    orders: Seq<OrderTransactionView>,
    event_id: ObjectId,
    quantity: i32,
    now: i64,
    until: i64,
    i: int,
)
    requires
        0 <= i < before.len(),
        before[i].status == InventoryStatus::Sold,
        swept(before, after, orders, now) || reserved_selected(
            before,
            after,
            InventoryQuery::Unreserved { event_id, cut_off: now },
            query_limit(quantity as i64),
            until,
        ),
    ensures
        after[i] == before[i],
{
}

/// A sweep resolves a lapsed reservation on its page to `Sold` where a
/// stored order holds the unit.
pub proof fn law_sweep_sells_ordered(
    before: Seq<Inventory>,
    after: Seq<Inventory>,
    orders: Seq<OrderTransactionView>,
    now: i64,
    i: int,
)
    requires
        swept(before, after, orders, now),
        is_selected(before, lapsed_query(now), SWEEP_PAGE_SIZE as nat, i),
        is_ordered(orders, before[i].id.unwrap()),
    ensures
        after[i].status == InventoryStatus::Sold,
        after[i].id == before[i].id,
{
}

/// A sweep resolves a lapsed reservation on its page to `Available` where no
/// stored order holds the unit, and the unit can then be reserved again: it
/// satisfies the query for free units of its event at any time.
pub proof fn law_sweep_frees_unordered(
    before: Seq<Inventory>,
    after: Seq<Inventory>,
    orders: Seq<OrderTransactionView>,
    now: i64,
    i: int,
    later: i64,
)
    requires
        swept(before, after, orders, now),
        is_selected(before, lapsed_query(now), SWEEP_PAGE_SIZE as nat, i),
        !is_ordered(orders, before[i].id.unwrap()),
    ensures
        after[i].status == InventoryStatus::Available,
        after[i].id == before[i].id,
        (InventoryQuery::Unreserved { event_id: before[i].event_id, cut_off: later }).matches(
            after[i],
        ),
{
}

/// Where the lapsed reservations fit on one page, a sweep leaves none: every
/// unit that was held by a lapsed reservation is resolved.
pub proof fn law_sweep_resolves_all(
    before: Seq<Inventory>,
    after: Seq<Inventory>,
    orders: Seq<OrderTransactionView>,
    now: i64,
)
    requires
        swept(before, after, orders, now),
        matching(before, lapsed_query(now)).len() <= SWEEP_PAGE_SIZE,
    ensures
        forall|i: int|
            0 <= i < after.len() ==> !(#[trigger] after[i]).is_lapsed(now as int),
        matching(after, lapsed_query(now)).len() == 0,
{
    let query = lapsed_query(now);
    assert forall|i: int| 0 <= i < after.len() implies !(#[trigger] after[i]).is_lapsed(
        now as int,
    ) by {
        if query.matches(before[i]) {
            lemma_matching_at_rank(before, query, i);
            assert(is_selected(before, query, SWEEP_PAGE_SIZE as nat, i));
        }
    }
    lemma_none_matching(after, query);
}

/// A swept ledger gives the next sweep nothing to do. Where the lapsed
/// reservations fit on one page and no further reservation lapses before the
/// next sweep, that sweep finds no lapsed reservation; it therefore writes
/// nothing and succeeds (see `InventoryKeeperService::do_inventory_keeping_at`).
pub proof fn law_swept_ledger_has_no_lapsed_page(
    before: Seq<Inventory>,
    between: Seq<Inventory>,
    orders: Seq<OrderTransactionView>,
    first: i64,
    second: i64,
)
    requires
        swept(before, between, orders, first),
        matching(before, lapsed_query(first)).len() <= SWEEP_PAGE_SIZE,
        forall|i: int|
            0 <= i < before.len() && (#[trigger] before[i]).status == InventoryStatus::Reserved
                && before[i].reserved_until >= first ==> before[i].reserved_until >= second,
    ensures
        lapsed_page(between, second).len() == 0,
{
    let query = lapsed_query(first);
    assert forall|i: int| 0 <= i < between.len() implies !lapsed_query(second).matches(
        #[trigger] between[i],
    ) by {
        if query.matches(before[i]) {
            lemma_matching_at_rank(before, query, i);
            assert(is_selected(before, query, SWEEP_PAGE_SIZE as nat, i));
        } else {
            assert(between[i] == before[i]);
        }
    }
    lemma_none_matching(between, lapsed_query(second));
}

/// A sweep is idempotent. Where the lapsed reservations fit on one page and
/// no further reservation lapses between the two, a second sweep right after
/// the first leaves the ledger as the first left it.
pub proof fn law_sweep_idempotent(
    before: Seq<Inventory>,
    between: Seq<Inventory>,
    after: Seq<Inventory>,
    orders: Seq<OrderTransactionView>,
    first: i64,
    second: i64,
)
    requires
        swept(before, between, orders, first),
        swept(between, after, orders, second),
        matching(before, lapsed_query(first)).len() <= SWEEP_PAGE_SIZE,
        forall|i: int|
            0 <= i < before.len() && (#[trigger] before[i]).status == InventoryStatus::Reserved
                && before[i].reserved_until >= first ==> before[i].reserved_until >= second,
    ensures
        after == between,
{
    law_sweep_resolves_all(before, between, orders, first);
    let query = lapsed_query(first);
    assert forall|i: int| 0 <= i < between.len() implies !(#[trigger] between[i]).is_lapsed(
        second as int,
    ) by {
        if query.matches(before[i]) {
            lemma_matching_at_rank(before, query, i);
            assert(is_selected(before, query, SWEEP_PAGE_SIZE as nat, i));
        } else {
            assert(between[i] == before[i]);
        }
    }
    assert forall|i: int| 0 <= i < between.len() implies after[i] == between[i] by {
        assert(!lapsed_query(second).matches(between[i]));
    }
    assert(after =~= between);
}

/// A reservation uses up what it reserves. After a reservation of `limit`
/// units at `now`, as many units fewer are free as were reserved: all that
/// were free where they were fewer than `limit`, `limit` otherwise. The
/// reserved units stay out of reach until their reservation lapses.
pub proof fn law_reservation_uses_up_units(
    before: Seq<Inventory>,
    after: Seq<Inventory>,
    event_id: ObjectId,
    limit: nat,
    now: i64,
    until: i64,
)
    requires
        reserved_selected(
            before,
            after,
            InventoryQuery::Unreserved { event_id, cut_off: now },
            limit,
            until,
        ),
        now <= until,
    ensures
        available_units(after, event_id, now).len() + (if available_units(
            before,
            event_id,
            now,
        ).len() < limit {
            available_units(before, event_id, now).len()
        } else {
            limit
        }) == available_units(before, event_id, now).len(),
{
    lemma_reservation_ranks(before, after, event_id, limit, now, until, before.len());
    assert(before.take(before.len() as int) =~= before);
    assert(after.take(before.len() as int) =~= after);
}

/// The batches of a generation request cover it exactly. Where `to_create`
/// units are missing, there are as many batches as thousands in it, rounded
/// up, and none where nothing is missing; every batch holds one unit at
/// least and a thousand at most; every batch but the last is full, and the
/// last holds what is left.
pub proof fn law_batches_cover_the_request(to_create: nat, k: nat)
    requires
        k < batches(to_create),
    ensures
        batches(to_create) * GENERATION_BATCH_SIZE >= to_create,
        (batches(to_create) - 1) * GENERATION_BATCH_SIZE < to_create,
        1 <= batch_size(to_create, k) <= GENERATION_BATCH_SIZE,
        k + 1 < batches(to_create) ==> batch_size(to_create, k) == GENERATION_BATCH_SIZE,
        k + 1 == batches(to_create) ==> batch_size(to_create, k) == to_create - k
            * GENERATION_BATCH_SIZE,
{
}

/// No batch is made where nothing is missing.
pub proof fn law_no_batch_without_missing_units(to_create: nat)
    ensures
        batches(to_create) == 0 <==> to_create == 0,
{
}

/// Batches never take the units of a generation request past the number
/// requested: where `created` units are stored, the next batch brings them
/// to the number requested at most, unless they were more before.
pub proof fn law_generation_never_exceeds(number_to_create: i32, created: nat)
    ensures
        created + next_batch(remaining(number_to_create, created)) <= if number_to_create
            <= created {
            created
        } else {
            number_to_create as nat
        },
        next_batch(remaining(number_to_create, created)) <= GENERATION_BATCH_SIZE,
        remaining(number_to_create, created) == 0 <==> number_to_create <= created,
{
}

/// Whether `states` is a run of sweeps over the same orders: each state is
/// the one before it, swept at the time of the same position.
pub open spec fn is_sweep_run(
    states: Seq<Seq<Inventory>>,
    times: Seq<i64>,
    orders: Seq<OrderTransactionView>,
) -> bool {
    &&& states.len() == times.len() + 1
    &&& forall|k: int|
        0 <= k < times.len() ==> swept(#[trigger] states[k], states[k + 1], orders, times[k])
}

/// Among the first `below` units, the number that are `Reserved`.
pub open spec fn reserved_below(rows: Seq<Inventory>, below: nat) -> nat
    decreases below,
{
    if below == 0 {
        0
    } else {
        reserved_below(rows, (below - 1) as nat) + if rows[below - 1].status
            == InventoryStatus::Reserved {
            1nat
        } else {
            0nat
        }
    }
}

/// A sold unit is eventually marked as sold. A unit that is `Reserved`
/// and held by a stored order becomes `Sold` in a run of sweeps, once its
/// reservation has lapsed at each of them and the sweeps are enough to get
/// to it: each sweep resolves a page of the lapsed reservations that stand
/// before the unit, or the unit itself. How the unit came to be `Reserved`
/// plays no part.
pub proof fn law_ordered_unit_is_eventually_sold(
    states: Seq<Seq<Inventory>>,
    times: Seq<i64>,
    orders: Seq<OrderTransactionView>,
    i: int,
)
    requires
        is_sweep_run(states, times, orders),
        0 <= i < states[0].len(),
        states[0][i].status == InventoryStatus::Reserved,
        states[0][i].id is Some,
        is_ordered(orders, states[0][i].id.unwrap()),
        forall|k: int| 0 <= k < times.len() ==> states[0][i].reserved_until < #[trigger] times[k],
        reserved_below(states[0], i as nat) < times.len() * SWEEP_PAGE_SIZE,
    ensures
        states.last().len() == states[0].len(),
        states.last()[i].status == InventoryStatus::Sold,
        states.last()[i].id == states[0][i].id,
{
    lemma_sweep_run_progress(states, times, orders, i, times.len() as int);
}

/// The number of updates of a batch that found their unit.
pub open spec fn count_true(flags: Seq<bool>) -> nat
    decreases flags.len(),
{
    if flags.len() == 0 {
        0
    } else {
        count_true(flags.drop_last()) + if flags.last() {
            1nat
        } else {
            0nat
        }
    }
}

/// Whether `update` was made from a unit of `snapshot` that satisfies
/// `query`: it names that unit and the stamp that the unit carries there.
pub open spec fn guards_candidate(
    update: ConditionalUpdate,
    snapshot: Seq<Inventory>,
    query: InventoryQuery,
) -> bool {
    exists|i: int|
        0 <= i < snapshot.len() && query.matches(#[trigger] snapshot[i]) && update.applies_to(
            snapshot[i],
        )
}

/// Among the first `below` units, the number that satisfied `query` in
/// `snapshot` and still carry in `current` the stamp they carried there.
pub open spec fn untouched(
    snapshot: Seq<Inventory>,
    current: Seq<Inventory>,
    query: InventoryQuery,
    below: nat,
) -> nat
    decreases below,
{
    if below == 0 {
        0
    } else {
        let i = below - 1;
        untouched(snapshot, current, query, i as nat) + if query.matches(snapshot[i])
            && current[i].concurrency_stamp@ == snapshot[i].concurrency_stamp@ {
            1nat
        } else {
            0nat
        }
    }
}

/// Reservations never oversell. However many reservations read their
/// candidates from the same ledger, and in whatever order and however often
/// their updates are then applied, at most as many updates take effect as
/// there were free units: every update that takes effect uses up the stamp
/// of one free unit, and no later update made from the same reading finds
/// that unit again.
pub proof fn law_reservations_never_oversell(
    snapshot: Seq<Inventory>,
    event_id: ObjectId,
    now: i64,
    updates: Seq<ConditionalUpdate>,
    stamps: Seq<String>,
)
    requires
        inventories_well_formed(snapshot),
        forall|k: int|
            0 <= k < updates.len() ==> guards_candidate(
                #[trigger] updates[k],
                snapshot,
                InventoryQuery::Unreserved { event_id, cut_off: now },
            ),
        stamps_rotate(updates, stamps),
    ensures
        count_true(matched_flags(snapshot, updates, stamps)) <= available_units(
            snapshot,
            event_id,
            now,
        ).len(),
{
    let query = InventoryQuery::Unreserved { event_id, cut_off: now };
    lemma_oversell_prefix(snapshot, query, updates, stamps, updates.len() as int);
    lemma_untouched_snapshot(snapshot, query, snapshot.len());
    assert(snapshot.take(snapshot.len() as int) =~= snapshot);
    assert(matched_flags(snapshot, updates, stamps).take(updates.len() as int) =~= matched_flags(
        snapshot,
        updates,
        stamps,
    ));
}

/// Whether no unit has carried `stamp` in any of the first `k + 1` states
/// of a course of writes: the stamp is new to the ledger when the `k`-th
/// write is made.
pub open spec fn is_new_stamp(states: Seq<Seq<Inventory>>, k: int, stamp: String) -> bool {
    forall|j: int, i: int|
        0 <= j <= k && 0 <= i < states[j].len() ==> (#[trigger] states[j][i]).concurrency_stamp@
            != stamp@
}

/// Whether the `k`-th write of a course of reservation writes is in order:
/// it is one conditional update, applied to the `k`-th state; the update
/// reserves, until `untils[k]`, a unit of the event that was free at
/// `nows[k]` when its author read the ledger, in the state `reads[k]`,
/// which is the `k`-th or an earlier one; and it stamps with a stamp that is
/// new to the ledger.
pub open spec fn is_schedule_step(
    states: Seq<Seq<Inventory>>,
    updates: Seq<ConditionalUpdate>,
    stamps: Seq<String>,
    reads: Seq<int>,
    nows: Seq<i64>,
    untils: Seq<i64>,
    event_id: ObjectId,
    k: int,
) -> bool {
    &&& states[k + 1] == apply_update(states[k], updates[k], stamps[k])
    &&& 0 <= reads[k] <= k
    &&& guards_candidate(
        updates[k],
        states[reads[k]],
        InventoryQuery::Unreserved { event_id, cut_off: nows[k] },
    )
    &&& updates[k].status == InventoryStatus::Reserved
    &&& updates[k].reserved_until == Some(untils[k])
    &&& is_new_stamp(states, k, stamps[k])
}

/// Whether `states` is the course of the ledger through the writes of any
/// number of reservations of one event whose read and write phases
/// interleave in any order: every write is in order, whenever its author
/// read.
pub open spec fn is_reservation_schedule(
    states: Seq<Seq<Inventory>>,
    updates: Seq<ConditionalUpdate>,
    stamps: Seq<String>,
    reads: Seq<int>,
    nows: Seq<i64>,
    untils: Seq<i64>,
    event_id: ObjectId,
) -> bool {
    &&& states.len() == updates.len() + 1
    &&& stamps.len() == updates.len()
    &&& reads.len() == updates.len()
    &&& nows.len() == updates.len()
    &&& untils.len() == updates.len()
    &&& forall|k: int|
        0 <= k < updates.len() ==> #[trigger] is_schedule_step(
            states,
            updates,
            stamps,
            reads,
            nows,
            untils,
            event_id,
            k,
        )
}

/// For each write of a course of writes, whether it took effect: whether
/// the update found its unit in the state it was applied to.
pub open spec fn effects(states: Seq<Seq<Inventory>>, updates: Seq<ConditionalUpdate>) -> Seq<
    bool,
> {
    Seq::new(updates.len(), |k: int| updates[k].is_matched(states[k]))
}

/// Reservations never oversell, however their phases interleave. Let any
/// number of reservations of one event read the ledger and write their
/// updates in any order, each at a time of its own, each write stamping
/// with a stamp that is new to the ledger, and let nothing else write. Let
/// `latest` be a time that no read comes after and that no reservation ends
/// before. Then no more writes take effect than units were free at first,
/// seen from `latest`, and no two writes that take effect reserve the same
/// unit: a write takes effect only on a unit that is still as its author
/// read it, which is a free unit, and leaves it reserved.
pub proof fn law_interleaved_reservations_never_oversell(
    states: Seq<Seq<Inventory>>,
    updates: Seq<ConditionalUpdate>,
    stamps: Seq<String>,
    reads: Seq<int>,
    nows: Seq<i64>,
    untils: Seq<i64>,
    event_id: ObjectId,
    latest: i64,
)
    requires
        is_reservation_schedule(states, updates, stamps, reads, nows, untils, event_id),
        inventories_well_formed(states[0]),
        forall|k: int| 0 <= k < nows.len() ==> #[trigger] nows[k] <= latest,
        forall|k: int| 0 <= k < untils.len() ==> latest <= #[trigger] untils[k],
    ensures
        count_true(effects(states, updates)) <= available_units(states[0], event_id, latest).len(),
        forall|first: int, second: int|
            0 <= first < second < updates.len() && #[trigger] effects(states, updates)[first]
                && #[trigger] effects(states, updates)[second] ==> updates[first].id
                != updates[second].id,
{
    let query = InventoryQuery::Unreserved { event_id, cut_off: latest };
    let n = updates.len() as int;
    lemma_schedule_prefix(states, updates, stamps, reads, nows, untils, event_id, latest, n);
    assert(effects(states, updates).take(n) =~= effects(states, updates));
    assert forall|first: int, second: int|
        0 <= first < second < updates.len() && #[trigger] effects(states, updates)[first]
            && #[trigger] effects(states, updates)[second] implies updates[first].id
        != updates[second].id by {
        lemma_schedule_prefix(states, updates, stamps, reads, nows, untils, event_id, latest, first);
        lemma_schedule_prefix(states, updates, stamps, reads, nows, untils, event_id, latest, second);
        lemma_effective_write_hits_free_unit(states, updates, stamps, reads, nows, untils, event_id, latest, second);
        let one = choose|i: int|
            0 <= i < states[first].len() && updates[first].applies_to(#[trigger] states[first][i]);
        let other = choose|i: int|
            0 <= i < states[second].len() && updates[second].applies_to(
                #[trigger] states[second][i],
            );
        if updates[first].id == updates[second].id {
            assert(states[first][one].id == states[0][one].id);
            assert(states[second][other].id == states[0][other].id);
            if one != other {
                assert(states[0][one].id != states[0][other].id);
            }
            assert(query.matches(states[second][other]));
        }
    }
}

/// The write phase of a reservation guards what its read phase found: every
/// update that a reservation makes from the candidates it read names one of
/// the free units of the ledger it read, and the stamp of that unit.
pub proof fn law_reservation_guards_candidates(
    snapshot: Seq<Inventory>,
    event_id: ObjectId,
    quantity: i32,
    now: i64,
    until: i64,
)
    requires
        inventories_well_formed(snapshot),
    ensures
        forall|k: int|
            0 <= k < reservation_updates(
                mark_reserved(candidates(snapshot, event_id, quantity, now), until),
            ).len() ==> guards_candidate(
                #[trigger] reservation_updates(
                    mark_reserved(candidates(snapshot, event_id, quantity, now), until),
                )[k],
                snapshot,
                InventoryQuery::Unreserved { event_id, cut_off: now },
            ),
{
    let query = InventoryQuery::Unreserved { event_id, cut_off: now };
    let found = candidates(snapshot, event_id, quantity, now);
    let marked = mark_reserved(found, until);
    let updates = reservation_updates(marked);
    crate::inventories::application::lemma_candidates_identified(
        snapshot,
        event_id,
        quantity,
        now,
    );
    crate::inventories::inventory_repository::lemma_identified_all(marked);
    assert forall|k: int| 0 <= k < updates.len() implies guards_candidate(
        #[trigger] updates[k],
        snapshot,
        query,
    ) by {
        let i = crate::ledger::lemma_matching_from_row(snapshot, query, k);
        assert(found[k] == snapshot[i]);
        assert(updates[k].applies_to(snapshot[i]));
    }
}

/// A batch made of two batches leaves what the second leaves when it is
/// applied after the first: successive transactions are one long batch.
pub proof fn law_transactions_compose(
    rows: Seq<Inventory>,
    first: Seq<ConditionalUpdate>,
    first_stamps: Seq<String>,
    second: Seq<ConditionalUpdate>,
    second_stamps: Seq<String>,
)
    requires
        first_stamps.len() == first.len(),
        second_stamps.len() == second.len(),
    ensures
        apply_updates(rows, first + second, first_stamps + second_stamps) == apply_updates(
            apply_updates(rows, first, first_stamps),
            second,
            second_stamps,
        ),
    decreases second.len(),
{
    if second.len() == 0 {
        assert(first + second =~= first);
        assert(first_stamps + second_stamps =~= first_stamps);
    } else {
        law_transactions_compose(
            rows,
            first,
            first_stamps,
            second.drop_last(),
            second_stamps.drop_last(),
        );
        assert((first + second).drop_last() =~= first + second.drop_last());
        assert((first_stamps + second_stamps).drop_last() =~= first_stamps
            + second_stamps.drop_last());
        assert((first + second).last() == second.last());
        assert((first_stamps + second_stamps).last() == second_stamps.last());
    }
}

/// In the ledger itself every unit that satisfies the query is untouched.
proof fn lemma_untouched_snapshot(snapshot: Seq<Inventory>, query: InventoryQuery, below: nat)
    requires
        below <= snapshot.len(),
    ensures
        untouched(snapshot, snapshot, query, below) == matching(
            snapshot.take(below as int),
            query,
        ).len(),
    decreases below,
{
    if below > 0 {
        lemma_untouched_snapshot(snapshot, query, (below - 1) as nat);
        crate::ledger::lemma_matching_step(snapshot, query, below - 1);
    }
}

/// Where two states differ in their stamps at one unit only, their untouched
/// units differ by that unit at most.
proof fn lemma_untouched_step(
    snapshot: Seq<Inventory>,
    before: Seq<Inventory>,
    after: Seq<Inventory>,
    query: InventoryQuery,
    target: int,
    below: nat,
)
    requires
        before.len() == snapshot.len(),
        after.len() == snapshot.len(),
        below <= snapshot.len(),
        0 <= target < snapshot.len(),
        forall|j: int|
            0 <= j < snapshot.len() && j != target ==> (#[trigger] after[j]).concurrency_stamp@
                == before[j].concurrency_stamp@,
        query.matches(snapshot[target]),
        before[target].concurrency_stamp@ == snapshot[target].concurrency_stamp@,
        after[target].concurrency_stamp@ != snapshot[target].concurrency_stamp@,
    ensures
        untouched(snapshot, after, query, below) + (if target < below {
            1nat
        } else {
            0nat
        }) == untouched(snapshot, before, query, below),
    decreases below,
{
    if below > 0 {
        lemma_untouched_step(snapshot, before, after, query, target, (below - 1) as nat);
        if below - 1 != target {
            assert(after[below - 1].concurrency_stamp@ == before[below - 1].concurrency_stamp@);
        }
    }
}

/// After any number of the updates, those that took effect and the units
/// that are still untouched are together no more than the units that
/// satisfied the query at first.
proof fn lemma_oversell_prefix(
    snapshot: Seq<Inventory>,
    query: InventoryQuery,
    updates: Seq<ConditionalUpdate>,
    stamps: Seq<String>,
    n: int,
)
    requires
        inventories_well_formed(snapshot),
        forall|k: int|
            0 <= k < updates.len() ==> guards_candidate(#[trigger] updates[k], snapshot, query),
        stamps_rotate(updates, stamps),
        0 <= n <= updates.len(),
    ensures
        apply_updates(snapshot, updates.take(n), stamps.take(n)).len() == snapshot.len(),
        forall|i: int|
            0 <= i < snapshot.len() ==> (#[trigger] apply_updates(
                snapshot,
                updates.take(n),
                stamps.take(n),
            )[i]).id == snapshot[i].id,
        count_true(matched_flags(snapshot, updates, stamps).take(n)) + untouched(
            snapshot,
            apply_updates(snapshot, updates.take(n), stamps.take(n)),
            query,
            snapshot.len(),
        ) <= untouched(snapshot, snapshot, query, snapshot.len()),
    decreases n,
{
    let flags = matched_flags(snapshot, updates, stamps);
    if n == 0 {
        assert(updates.take(0) =~= Seq::<ConditionalUpdate>::empty());
        assert(flags.take(0) =~= Seq::<bool>::empty());
    } else {
        let m = n - 1;
        lemma_oversell_prefix(snapshot, query, updates, stamps, m);
        let before = apply_updates(snapshot, updates.take(m), stamps.take(m));
        let after = apply_updates(snapshot, updates.take(n), stamps.take(n));
        let update = updates[m];
        let stamp = stamps[m];
        lemma_apply_updates_step(snapshot, updates, stamps, m);
        assert(after == apply_update(before, update, stamp));
        assert(flags.take(n).drop_last() =~= flags.take(m));
        assert(flags.take(n).last() == flags[m]);
        assert(flags[m] == update.is_matched(before));
        if update.is_matched(before) {
            let target = choose|i: int|
                0 <= i < before.len() && update.applies_to(#[trigger] before[i]);
            assert(guards_candidate(update, snapshot, query));
            let origin = choose|i: int|
                0 <= i < snapshot.len() && query.matches(#[trigger] snapshot[i])
                    && update.applies_to(snapshot[i]);
            assert(before[target].id == snapshot[target].id);
            if origin != target {
                assert(snapshot[origin].id != snapshot[target].id);
            }
            assert forall|j: int| 0 <= j < snapshot.len() && j != target implies (
            #[trigger] after[j]).concurrency_stamp@ == before[j].concurrency_stamp@ by {
                assert(before[j].id == snapshot[j].id);
                assert(snapshot[j].id != snapshot[target].id);
            }
            assert(after[target].concurrency_stamp@ == stamp@);
            lemma_untouched_step(snapshot, before, after, query, target, snapshot.len());
        } else {
            assert(after =~= before);
        }
    }
}

/// A sweep takes from the `Reserved` units that stand before a position as
/// many as it selects there: all lapsed reservations before the position, a
/// page at most.
proof fn lemma_sweep_reserved_below(
    before: Seq<Inventory>,
    after: Seq<Inventory>,
    orders: Seq<OrderTransactionView>,
    now: i64,
    below: nat,
)
    requires
        swept(before, after, orders, now),
        below <= before.len(),
    ensures
        reserved_below(after, below) + (if rank(before, lapsed_query(now), below as int)
            < SWEEP_PAGE_SIZE {
            rank(before, lapsed_query(now), below as int)
        } else {
            SWEEP_PAGE_SIZE as nat
        }) == reserved_below(before, below),
    decreases below,
{
    let query = lapsed_query(now);
    if below == 0 {
        assert(before.take(0) =~= Seq::<Inventory>::empty());
    } else {
        let j = below - 1;
        lemma_sweep_reserved_below(before, after, orders, now, j as nat);
        crate::ledger::lemma_matching_step(before, query, j);
        if !is_selected(before, query, SWEEP_PAGE_SIZE as nat, j) {
            assert(after[j] == before[j]);
        } else {
            assert(is_resolved_from(after[j], before[j], orders));
        }
    }
}

/// After the first `k` sweeps of a run, a `Reserved` unit that a stored
/// order holds, and whose reservation has lapsed at each sweep, is `Sold`,
/// or every sweep so far has resolved a full page before it.
proof fn lemma_sweep_run_progress(
    states: Seq<Seq<Inventory>>,
    times: Seq<i64>,
    orders: Seq<OrderTransactionView>,
    i: int,
    k: int,
)
    requires
        is_sweep_run(states, times, orders),
        0 <= i < states[0].len(),
        states[0][i].status == InventoryStatus::Reserved,
        states[0][i].id is Some,
        is_ordered(orders, states[0][i].id.unwrap()),
        forall|m: int| 0 <= m < times.len() ==> states[0][i].reserved_until < #[trigger] times[m],
        0 <= k <= times.len(),
    ensures
        states[k].len() == states[0].len(),
        states[k][i].id == states[0][i].id,
        states[k][i].reserved_until == states[0][i].reserved_until,
        states[k][i].status == InventoryStatus::Sold || (states[k][i].status
            == InventoryStatus::Reserved && reserved_below(states[k], i as nat) + k
            * SWEEP_PAGE_SIZE <= reserved_below(states[0], i as nat)),
    decreases k,
{
    if k > 0 {
        let m = k - 1;
        lemma_sweep_run_progress(states, times, orders, i, m);
        let before = states[m];
        let after = states[m + 1];
        let now = times[m];
        let query = lapsed_query(now);
        assert(swept(before, after, orders, now));
        assert(states[0][i].reserved_until < times[m]);
        if before[i].status == InventoryStatus::Reserved {
            assert(query.matches(before[i]));
            if is_selected(before, query, SWEEP_PAGE_SIZE as nat, i) {
                assert(is_resolved_from(after[i], before[i], orders));
            } else {
                assert(after[i] == before[i]);
                lemma_sweep_reserved_below(before, after, orders, now, i as nat);
                assert(m * SWEEP_PAGE_SIZE + SWEEP_PAGE_SIZE == k * SWEEP_PAGE_SIZE) by {
                    assert(SWEEP_PAGE_SIZE == 1000);
                }
            }
        } else {
            assert(!query.matches(before[i]));
            assert(after[i] == before[i]);
        }
    }
}

/// A reservation takes from the free units that stand before a position as
/// many as it selects there.
proof fn lemma_reservation_ranks(
    before: Seq<Inventory>,
    after: Seq<Inventory>,
    event_id: ObjectId,
    limit: nat,
    now: i64,
    until: i64,
    below: nat,
)
    requires
        reserved_selected(
            before,
            after,
            InventoryQuery::Unreserved { event_id, cut_off: now },
            limit,
            until,
        ),
        now <= until,
        below <= before.len(),
    ensures
        rank(after, InventoryQuery::Unreserved { event_id, cut_off: now }, below as int) + (if rank(
            before,
            InventoryQuery::Unreserved { event_id, cut_off: now },
            below as int,
        ) < limit {
            rank(before, InventoryQuery::Unreserved { event_id, cut_off: now }, below as int)
        } else {
            limit
        }) == rank(before, InventoryQuery::Unreserved { event_id, cut_off: now }, below as int),
    decreases below,
{
    let query = InventoryQuery::Unreserved { event_id, cut_off: now };
    if below == 0 {
        assert(before.take(0) =~= Seq::<Inventory>::empty());
        assert(after.take(0) =~= Seq::<Inventory>::empty());
    } else {
        let j = below - 1;
        lemma_reservation_ranks(before, after, event_id, limit, now, until, j as nat);
        crate::ledger::lemma_matching_step(before, query, j);
        crate::ledger::lemma_matching_step(after, query, j);
        if !is_selected(before, query, limit, j) {
            assert(after[j] == before[j]);
        } else {
            assert(crate::inventories::application::is_reserved_from(after[j], before[j], until));
        }
    }
}

/// Where two states differ at one unit only, which satisfies the query in
/// the first and not in the second, one unit fewer satisfies the query in
/// the second.
proof fn lemma_matching_one_less(
    before: Seq<Inventory>,
    after: Seq<Inventory>,
    query: InventoryQuery,
    target: int,
    below: nat,
)
    requires
        after.len() == before.len(),
        below <= before.len(),
        0 <= target < before.len(),
        forall|j: int| 0 <= j < before.len() && j != target ==> #[trigger] after[j] == before[j],
        query.matches(before[target]),
        !query.matches(after[target]),
    ensures
        rank(after, query, below as int) + (if target < below {
            1nat
        } else {
            0nat
        }) == rank(before, query, below as int),
    decreases below,
{
    if below == 0 {
        assert(before.take(0) =~= Seq::<Inventory>::empty());
        assert(after.take(0) =~= Seq::<Inventory>::empty());
    } else {
        let j = below - 1;
        lemma_matching_one_less(before, after, query, target, j as nat);
        crate::ledger::lemma_matching_step(before, query, j);
        crate::ledger::lemma_matching_step(after, query, j);
        if j != target {
            assert(after[j] == before[j]);
        }
    }
}

/// After the first `n` writes of a course of reservation writes: the units
/// and their identifiers are those of the first state; a unit that carries
/// the stamp it carried in an earlier state is as it was in that state; the
/// writes that took effect and the units that are still free at `latest`
/// are together as many as the units that were free at `latest` at first;
/// and no unit that a write has found is free at `latest`.
proof fn lemma_schedule_prefix(
    states: Seq<Seq<Inventory>>,
    updates: Seq<ConditionalUpdate>,
    stamps: Seq<String>,
    reads: Seq<int>,
    nows: Seq<i64>,
    untils: Seq<i64>,
    event_id: ObjectId,
    latest: i64,
    n: int,
)
    requires
        is_reservation_schedule(states, updates, stamps, reads, nows, untils, event_id),
        inventories_well_formed(states[0]),
        forall|k: int| 0 <= k < nows.len() ==> #[trigger] nows[k] <= latest,
        forall|k: int| 0 <= k < untils.len() ==> latest <= #[trigger] untils[k],
        0 <= n <= updates.len(),
    ensures
        states[n].len() == states[0].len(),
        forall|i: int| 0 <= i < states[0].len() ==> (#[trigger] states[n][i]).id == states[0][i].id,
        inventories_well_formed(states[n]),
        forall|j: int, i: int|
            0 <= j <= n && 0 <= i < states[0].len() && states[n][i].concurrency_stamp@ == (
            #[trigger] states[j][i]).concurrency_stamp@ ==> states[n][i] == states[j][i],
        count_true(effects(states, updates).take(n)) + available_units(
            states[n],
            event_id,
            latest,
        ).len() == available_units(states[0], event_id, latest).len(),
        forall|m: int, i: int|
            0 <= m < n && 0 <= i < states[0].len() && updates[m].applies_to(
                #[trigger] states[m][i],
            ) ==> !(InventoryQuery::Unreserved { event_id, cut_off: latest }).matches(
                states[n][i],
            ),
    decreases n, 0int,
{
    let query = InventoryQuery::Unreserved { event_id, cut_off: latest };
    let flags = effects(states, updates);
    if n == 0 {
        assert(flags.take(0) =~= Seq::<bool>::empty());
    } else {
        let m = n - 1;
        lemma_schedule_prefix(states, updates, stamps, reads, nows, untils, event_id, latest, m);
        assert(is_schedule_step(states, updates, stamps, reads, nows, untils, event_id, m));
        let before = states[m];
        let after = states[n];
        let update = updates[m];
        let stamp = stamps[m];
        crate::ledger::lemma_apply_update_well_formed(before, update, stamp);
        assert(flags.take(n).drop_last() =~= flags.take(m));
        assert(flags.take(n).last() == update.is_matched(before));
        assert forall|j: int| 0 <= j <= m implies (#[trigger] states[j]).len()
            == states[0].len() by {
            lemma_schedule_prefix(states, updates, stamps, reads, nows, untils, event_id, latest, j);
        }
        if update.is_matched(before) {
            let target = choose|i: int|
                0 <= i < before.len() && update.applies_to(#[trigger] before[i]);
            lemma_effective_write_hits_free_unit(states, updates, stamps, reads, nows, untils, event_id, latest, m);
            assert(query.matches(before[target]));
            assert forall|j: int| 0 <= j < before.len() && j != target implies #[trigger] after[j]
                == before[j] by {
                assert(before[j].id != before[target].id);
            }
            assert(after[target] == update.write(before[target], stamp));
            assert(latest <= untils[m]);
            assert(!query.matches(after[target]));
            lemma_matching_one_less(before, after, query, target, before.len());
            assert(before.take(before.len() as int) =~= before);
            assert(after.take(before.len() as int) =~= after);
            assert forall|j: int, i: int|
                0 <= j <= n && 0 <= i < states[0].len() && states[n][i].concurrency_stamp@ == (
                #[trigger] states[j][i]).concurrency_stamp@ implies states[n][i]
                == states[j][i] by {
                if j <= m {
                    if i == target {
                        assert(states[j][i].concurrency_stamp@ != stamp@);
                    } else {
                        assert(after[i] == before[i]);
                    }
                }
            }
            assert forall|k: int, i: int|
                0 <= k < n && 0 <= i < states[0].len() && updates[k].applies_to(
                    #[trigger] states[k][i],
                ) implies !query.matches(states[n][i]) by {
                if i != target {
                    assert(after[i] == before[i]);
                    if k == m {
                        assert(before[i].id != before[target].id);
                    }
                }
            }
        } else {
            assert(after =~= before);
            assert forall|k: int, i: int|
                0 <= k < n && 0 <= i < states[0].len() && updates[k].applies_to(
                    #[trigger] states[k][i],
                ) implies !query.matches(states[n][i]) by {
                if k == m {
                    assert(update.applies_to(before[i]));
                }
            }
        }
    }
}

/// A write takes effect only on a free unit: the unit that the `k`-th write
/// finds is as its author read it, and was free then, so that it is free at
/// `latest`.
proof fn lemma_effective_write_hits_free_unit(
    states: Seq<Seq<Inventory>>,
    updates: Seq<ConditionalUpdate>,
    stamps: Seq<String>,
    reads: Seq<int>,
    nows: Seq<i64>,
    untils: Seq<i64>,
    event_id: ObjectId,
    latest: i64,
    k: int,
)
    requires
        is_reservation_schedule(states, updates, stamps, reads, nows, untils, event_id),
        inventories_well_formed(states[0]),
        forall|k: int| 0 <= k < nows.len() ==> #[trigger] nows[k] <= latest,
        forall|k: int| 0 <= k < untils.len() ==> latest <= #[trigger] untils[k],
        0 <= k < updates.len(),
    ensures
        forall|i: int|
            0 <= i < states[k].len() && updates[k].applies_to(#[trigger] states[k][i]) ==> (
            InventoryQuery::Unreserved { event_id, cut_off: latest }).matches(states[k][i]),
    decreases k, 1int,
{
    let seen = InventoryQuery::Unreserved { event_id, cut_off: nows[k] };
    let query = InventoryQuery::Unreserved { event_id, cut_off: latest };
    assert(is_schedule_step(states, updates, stamps, reads, nows, untils, event_id, k));
    let read = reads[k];
    lemma_schedule_prefix(states, updates, stamps, reads, nows, untils, event_id, latest, k);
    lemma_schedule_prefix(states, updates, stamps, reads, nows, untils, event_id, latest, read);
    let origin = choose|i: int|
        0 <= i < states[read].len() && seen.matches(#[trigger] states[read][i])
            && updates[k].applies_to(states[read][i]);
    assert(nows[k] <= latest);
    assert forall|i: int|
        0 <= i < states[k].len() && updates[k].applies_to(
            #[trigger] states[k][i],
        ) implies query.matches(states[k][i]) by {
        assert(states[k][i].id == states[0][i].id);
        assert(states[read][origin].id == states[0][origin].id);
        if i != origin {
            assert(states[0][i].id != states[0][origin].id);
        }
        assert(states[k][i].concurrency_stamp@ == states[read][i].concurrency_stamp@);
        assert(states[k][i] == states[read][i]);
        assert(seen.matches(states[k][i]));
    }
}

} // verus!
