//! The ledger: the store of inventory units and generation requests.
//!
//! The ledger answers predicate queries in insertion order, inserts units in
//! bulk, and applies batches of conditional updates atomically. A conditional
//! update names a unit and the concurrency stamp that its author read; it is
//! applied only while the unit still carries that stamp, and an applied update
//! replaces the stamp. An update that finds no such unit changes nothing and
//! is no failure. Which state a unit may move to, and for how long a
//! reservation holds, is decided by the callers, not here.
use vstd::prelude::*;
use crate::inventories::data_models::{
    GenerateInventory, GenerateInventoryStatus, Inventory, InventoryStatus,
};
use crate::object_id::{encode_hex, ObjectId};

verus! {

/// Why the ledger refused a write.
#[derive(Clone, Copy, Debug, PartialEq, Eq, Structural)]
pub enum LedgerError {
    /// A record with the same identifier is already stored.
    DuplicateKey,
    /// The batch could not be applied; none of it was.
    TransactionAborted,
}

/// A predicate over inventory units.
#[derive(Clone, Copy, Debug)]
pub enum InventoryQuery {
    /// Units of an event that no reservation holds at `cut_off`.
    Unreserved { event_id: ObjectId, cut_off: i64 },
    /// Units in a given state whose `reserved_until` lies before `cut_off`.
    StatusBefore { status: InventoryStatus, cut_off: i64 },
    /// Units created for a given generation request.
    GeneratedBy { generate_inventory_id: ObjectId },
}

impl InventoryQuery {
    /// Whether a unit satisfies the predicate.
    pub open spec fn matches(self, row: Inventory) -> bool {
        match self {
            InventoryQuery::Unreserved { event_id, cut_off } => row.event_id == event_id
                && row.is_unreserved(cut_off as int),
            InventoryQuery::StatusBefore { status, cut_off } => row.status == status
                && row.reserved_until < cut_off,
            InventoryQuery::GeneratedBy { generate_inventory_id } => row.generate_inventory_id
                == Some(generate_inventory_id),
        }
    }

    pub fn matches_row(&self, row: &Inventory) -> (r: bool)
        ensures
            r == self.matches(*row),
    {
        match self {
            InventoryQuery::Unreserved { event_id, cut_off } => {
                row.event_id == *event_id && (row.status == InventoryStatus::Available || (
                row.status == InventoryStatus::Reserved && row.reserved_until < *cut_off))
            },
            InventoryQuery::StatusBefore { status, cut_off } => {
                row.status == *status && row.reserved_until < *cut_off
            },
            InventoryQuery::GeneratedBy { generate_inventory_id } => {
                match row.generate_inventory_id {
                    Some(id) => id == *generate_inventory_id,
                    None => false,
                }
            },
        }
    }
}

/// The units of `rows` that satisfy `query`, in the order of `rows`.
pub open spec fn matching(rows: Seq<Inventory>, query: InventoryQuery) -> Seq<Inventory>
    decreases rows.len(),
{
    if rows.len() == 0 {
        Seq::empty()
    } else {
        let before = matching(rows.drop_last(), query);
        if query.matches(rows.last()) {
            before.push(rows.last())
        } else {
            before
        }
    }
}

/// The first `limit` units of `rows` that satisfy `query`; all of them where
/// there are fewer.
pub open spec fn first_matching(rows: Seq<Inventory>, query: InventoryQuery, limit: nat) -> Seq<
    Inventory,
> {
    let all = matching(rows, query);
    if all.len() <= limit {
        all
    } else {
        all.take(limit as int)
    }
}

/// A write that takes effect only on the unit `id` while it carries
/// `concurrency_stamp`.
#[derive(Debug)]
pub struct ConditionalUpdate {
    pub id: ObjectId,
    /// The stamp that the author of the update read.
    pub concurrency_stamp: String,
    /// The state to move the unit to.
    pub status: InventoryStatus,
    /// The new end of the reservation; `None` leaves it as it is.
    pub reserved_until: Option<i64>,
}

impl Clone for ConditionalUpdate {
    fn clone(&self) -> (r: Self)
        ensures
            r == *self,
    {
        ConditionalUpdate {
            id: self.id,
            concurrency_stamp: self.concurrency_stamp.clone(),
            status: self.status,
            reserved_until: self.reserved_until,
        }
    }
}

impl ConditionalUpdate {
    /// Whether the update applies to `row`: the identifier and the stamp
    /// agree.
    pub open spec fn applies_to(self, row: Inventory) -> bool {
        row.id == Some(self.id) && row.concurrency_stamp@ == self.concurrency_stamp@
    }

    /// `row` after the update, carrying `stamp` from then on.
    pub open spec fn write(self, row: Inventory, stamp: String) -> Inventory {
        Inventory {
            status: self.status,
            reserved_until: match self.reserved_until {
                Some(until) => until,
                None => row.reserved_until,
            },
            concurrency_stamp: stamp,
            ..row
        }
    }

    /// Whether the update applies to some unit of `rows`.
    pub open spec fn is_matched(self, rows: Seq<Inventory>) -> bool {
        exists|i: int| 0 <= i < rows.len() && self.applies_to(#[trigger] rows[i])
    }
}

/// `rows` after one conditional update: the unit it applies to is written
/// and stamped with `stamp`, every other unit is as before.
pub open spec fn apply_update(rows: Seq<Inventory>, update: ConditionalUpdate,
    stamp: String) -> Seq<
    Inventory,
> {
    Seq::new(
        rows.len(),
        |i: int|
            if update.applies_to(rows[i]) {
                update.write(rows[i], stamp)
            } else {
                rows[i]
            },
    )
}

/// `rows` after a batch of conditional updates, applied in order, the k-th
/// stamping with `stamps[k]`.
pub open spec fn apply_updates(
    rows: Seq<Inventory>,
    updates: Seq<ConditionalUpdate>,
    stamps: Seq<String>,
) -> Seq<Inventory>
    decreases updates.len(),
{
    if updates.len() == 0 {
        rows
    } else {
        apply_update(
            apply_updates(rows, updates.drop_last(), stamps.drop_last()),
            updates.last(),
            stamps.last(),
        )
    }
}

/// For each update of a batch, whether it found its unit when its turn came.
pub open spec fn matched_flags(
    rows: Seq<Inventory>,
    updates: Seq<ConditionalUpdate>,
    stamps: Seq<String>,
) -> Seq<bool> {
    Seq::new(
        updates.len(),
        |k: int| updates[k].is_matched(apply_updates(rows, updates.take(k), stamps.take(k))),
    )
}

/// Whether `stamp` is a stamp that can be generated: the text form of an
/// identifier.
pub open spec fn is_generated_stamp(stamp: Seq<char>) -> bool {
    exists|id: ObjectId| stamp == #[trigger] encode_hex(id@)
}

/// Whether one of `updates` guards with a stamp that can be generated.
pub open spec fn guards_generated_stamp(updates: Seq<ConditionalUpdate>) -> bool {
    exists|k: int|
        0 <= k < updates.len() && is_generated_stamp((#[trigger] updates[k]).concurrency_stamp@)
}

/// Whether one of `rows` carries a stamp that can be generated.
pub open spec fn carries_generated_stamp(rows: Seq<Inventory>) -> bool {
    exists|i: int|
        0 <= i < rows.len() && is_generated_stamp((#[trigger] rows[i]).concurrency_stamp@)
}

/// Every stamp of a batch differs from the stamp that its update guards
/// with, so that an applied update always changes the stamp.
pub open spec fn stamps_rotate(updates: Seq<ConditionalUpdate>, stamps: Seq<String>) -> bool {
    &&& stamps.len() == updates.len()
    &&& forall|k: int|
        0 <= k < updates.len() ==> (#[trigger] stamps[k])@ != updates[k].concurrency_stamp@
}

/// Whether some unit of `rows` has the identifier `id`.
pub open spec fn contains_id(rows: Seq<Inventory>, id: ObjectId) -> bool {
    exists|i: int| 0 <= i < rows.len() && (#[trigger] rows[i]).id == Some(id)
}

/// Every unit has an identifier, and no two units share one.
pub open spec fn inventories_well_formed(rows: Seq<Inventory>) -> bool {
    &&& forall|i: int| 0 <= i < rows.len() ==> (#[trigger] rows[i]).id is Some
    &&& forall|i: int, j: int|
        0 <= i < rows.len() && 0 <= j < rows.len() && i != j ==> (#[trigger] rows[i]).id != (
        #[trigger] rows[j]).id
}

/// Whether some request of `requests` has the identifier `id`.
pub open spec fn contains_request_id(requests: Seq<GenerateInventory>, id: ObjectId) -> bool {
    exists|i: int| 0 <= i < requests.len() && (#[trigger] requests[i]).id == Some(id)
}

/// Every request has an identifier, and no two requests share one.
pub open spec fn requests_well_formed(requests: Seq<GenerateInventory>) -> bool {
    &&& forall|i: int| 0 <= i < requests.len() ==> (#[trigger] requests[i]).id is Some
    &&& forall|i: int, j: int|
        0 <= i < requests.len() && 0 <= j < requests.len() && i != j ==> (
        #[trigger] requests[i]).id != (#[trigger] requests[j]).id
}

/// What a batch of conditional updates did.
#[derive(Debug)]
pub struct TransactionReport {
    /// The stamp that each update wrote, or would have written.
    pub stamps: Vec<String>,
    /// For each update, whether it found its unit.
    pub matched: Vec<bool>,
}

/// The store.
#[derive(Debug)]
pub struct Ledger {
    inventories: Vec<Inventory>,
    generate_inventories: Vec<GenerateInventory>,
}

impl Ledger {
    /// The stored units, in insertion order.
    pub closed spec fn inventories(&self) -> Seq<Inventory> {
        self.inventories@
    }

    /// The stored generation requests, in insertion order.
    pub closed spec fn generate_inventories(&self) -> Seq<GenerateInventory> {
        self.generate_inventories@
    }

    /// The invariant of the store: identifiers are present and unique.
    pub open spec fn wf(&self) -> bool {
        &&& inventories_well_formed(self.inventories())
        &&& requests_well_formed(self.generate_inventories())
    }

    /// An empty store.
    pub fn new() -> (r: Ledger)
        ensures
            r.wf(),
            r.inventories() == Seq::<Inventory>::empty(),
            r.generate_inventories() == Seq::<GenerateInventory>::empty(),
    {
        Ledger { inventories: Vec::new(), generate_inventories: Vec::new() }
    }

    /// The number of stored units.
    pub fn len(&self) -> (r: usize)
        ensures
            r == self.inventories().len(),
    {
        self.inventories.len()
    }

    /// The unit at a position in insertion order.
    pub fn get(&self, index: usize) -> (r: Option<Inventory>)
        ensures
            r == if index < self.inventories().len() {
                Some(self.inventories()[index as int])
            } else {
                None
            },
    {
        if index < self.inventories.len() {
            Some(self.inventories[index].clone())
        } else {
            None
        }
    }

    /// The first `limit` units that satisfy `query`, in insertion order.
    pub fn find(&self, query: &InventoryQuery, limit: usize) -> (r: Vec<Inventory>)
        ensures
            r@ == first_matching(self.inventories(), *query, limit as nat),
    {
        let mut found: Vec<Inventory> = Vec::new();
        let mut i: usize = 0;
        while i < self.inventories.len() && found.len() < limit
            invariant
                i <= self.inventories@.len(),
                found@ == matching(self.inventories@.take(i as int), *query),
                found@.len() <= limit,
            decreases self.inventories@.len() - i,
        {
            proof {
                lemma_matching_step(self.inventories@, *query, i as int);
            }
            if query.matches_row(&self.inventories[i]) {
                found.push(self.inventories[i].clone());
            }
            i += 1;
        }
        proof {
            lemma_matching_prefix(self.inventories@, *query, i as int);
            let all = matching(self.inventories@, *query);
            if i < self.inventories@.len() {
                assert(found@.len() == limit);
                assert(all.take(limit as int) =~= found@);
            } else {
                assert(self.inventories@.take(i as int) =~= self.inventories@);
            }
        }
        found
    }

    /// The number of units that satisfy `query`.
    pub fn count(&self, query: &InventoryQuery) -> (r: usize)
        ensures
            r == matching(self.inventories(), *query).len(),
    {
        let mut n: usize = 0;
        let mut i: usize = 0;
        while i < self.inventories.len()
            invariant
                i <= self.inventories@.len(),
                n == matching(self.inventories@.take(i as int), *query).len(),
                n <= i,
            decreases self.inventories@.len() - i,
        {
            proof {
                lemma_matching_step(self.inventories@, *query, i as int);
            }
            if query.matches_row(&self.inventories[i]) {
                n += 1;
            }
            i += 1;
        }
        proof {
            assert(self.inventories@.take(i as int) =~= self.inventories@);
        }
        n
    }
}

/// `row` as the store keeps it under the identifier `id`.
pub open spec fn with_id(row: Inventory, id: ObjectId) -> Inventory {
    Inventory { id: Some(id), ..row }
}

/// The first `ids.len()` units of `rows`, each under its identifier.
pub open spec fn with_ids(rows: Seq<Inventory>, ids: Seq<ObjectId>) -> Seq<Inventory> {
    Seq::new(ids.len(), |k: int| with_id(rows[k], ids[k]))
}

/// Whether the units `rows` carry identifiers of their own, all different
/// and none of them that of a unit of `stored`.
pub open spec fn carry_new_ids(stored: Seq<Inventory>, rows: Seq<Inventory>) -> bool {
    &&& forall|k: int|
        0 <= k < rows.len() ==> (#[trigger] rows[k]).id is Some && !contains_id(
            stored,
            rows[k].id.unwrap(),
        )
    &&& forall|j: int, k: int|
        0 <= j < k < rows.len() ==> (#[trigger] rows[j]).id != (#[trigger] rows[k]).id
}

/// `request` as the store keeps it under the identifier `id`.
pub open spec fn request_with_id(request: GenerateInventory, id: ObjectId) -> GenerateInventory {
    GenerateInventory { id: Some(id), ..request }
}

/// `requests` with the state of the request `id` set to `status`.
pub open spec fn with_request_status(
    requests: Seq<GenerateInventory>,
    id: ObjectId,
    status: GenerateInventoryStatus,
) -> Seq<GenerateInventory> {
    Seq::new(
        requests.len(),
        |i: int|
            if requests[i].id == Some(id) {
                GenerateInventory { status: status, ..requests[i] }
            } else {
                requests[i]
            },
    )
}

impl Ledger {
    /// Whether a unit with the identifier `id` is stored.
    pub fn contains(&self, id: ObjectId) -> (r: bool)
        ensures
            r == contains_id(self.inventories(), id),
    {
        let mut i: usize = 0;
        while i < self.inventories.len()
            invariant
                i <= self.inventories@.len(),
                forall|k: int| 0 <= k < i ==> (#[trigger] self.inventories@[k]).id != Some(id),
            decreases self.inventories@.len() - i,
        {
            match self.inventories[i].id {
                Some(other) => {
                    if other == id {
                        return true;
                    }
                },
                None => {},
            }
            i += 1;
        }
        false
    }

    /// The unit with the identifier `id`, if one is stored.
    pub fn find_by_id(&self, id: ObjectId) -> (r: Option<Inventory>)
        ensures
            r is Some <==> contains_id(self.inventories(), id),
            r matches Some(row) ==> row.id == Some(id) && self.inventories().contains(row),
    {
        let mut i: usize = 0;
        while i < self.inventories.len()
            invariant
                i <= self.inventories@.len(),
                forall|k: int| 0 <= k < i ==> (#[trigger] self.inventories@[k]).id != Some(id),
            decreases self.inventories@.len() - i,
        {
            match self.inventories[i].id {
                Some(other) => {
                    if other == id {
                        return Some(self.inventories[i].clone());
                    }
                },
                None => {},
            }
            i += 1;
        }
        None
    }

    /// Stores `row` under the identifier `id`, unless that identifier is
    /// taken.
    pub fn insert_inventory_with_id(&mut self, row: Inventory, id: ObjectId) -> (r: Result<
        (),
        LedgerError,
    >)
        requires
            old(self).wf(),
        ensures
            final(self).wf(),
            final(self).generate_inventories() == old(self).generate_inventories(),
            r is Ok <==> !contains_id(old(self).inventories(), id),
            r is Ok ==> final(self).inventories() == old(self).inventories().push(
                with_id(row, id),
            ),
            r matches Err(e) ==> e == LedgerError::DuplicateKey && final(self).inventories()
                == old(self).inventories(),
    {
        if self.contains(id) {
            return Err(LedgerError::DuplicateKey);
        }
        let stored = Inventory {
            id: Some(id),
            event_id: row.event_id,
            status: row.status,
            reserved_until: row.reserved_until,
            generate_inventory_id: row.generate_inventory_id,
            concurrency_stamp: row.concurrency_stamp,
        };
        self.inventories.push(stored);
        Ok(())
    }

    /// Stores `row`. A unit that comes without an identifier is given a newly
    /// generated one. Returns the identifier that the unit is stored under.
    /// Fails, storing nothing, where the identifier is taken; in a ledger
    /// without units none is.
    pub fn insert_inventory(&mut self, row: Inventory) -> (r: Result<ObjectId, LedgerError>)
        requires
            old(self).wf(),
        ensures
            final(self).wf(),
            final(self).generate_inventories() == old(self).generate_inventories(),
            row.id matches Some(id) ==> (r is Ok <==> !contains_id(old(self).inventories(), id)),
            old(self).inventories().len() == 0 ==> r is Ok,
            r matches Ok(id) ==> {
                &&& row.id is Some ==> row.id == Some(id)
                &&& !contains_id(old(self).inventories(), id)
                &&& final(self).inventories() == old(self).inventories().push(with_id(row, id))
            },
            r matches Err(e) ==> e == LedgerError::DuplicateKey && final(self).inventories()
                == old(self).inventories(),
    {
        let id = match row.id {
            Some(id) => id,
            None => ObjectId::new(),
        };
        match self.insert_inventory_with_id(row, id) {
            Ok(()) => Ok(id),
            Err(e) => Err(e),
        }
    }

    /// Stores `rows` one after another and returns their identifiers. A unit
    /// that carries an identifier keeps it. The insert is not atomic: it
    /// stops at the first unit whose identifier is taken, and the units
    /// before that one stay stored. It fails on no other unit: units that
    /// carry identifiers of their own, all different and none of them
    /// stored, are always stored.
    pub fn insert_many(&mut self, rows: Vec<Inventory>) -> (r: Result<Vec<ObjectId>, LedgerError>)
        requires
            old(self).wf(),
        ensures
            final(self).wf(),
            final(self).generate_inventories() == old(self).generate_inventories(),
            rows@.len() == 0 ==> r is Ok,
            carry_new_ids(old(self).inventories(), rows@) ==> r is Ok,
            r matches Ok(ids) ==> {
                &&& ids@.len() == rows@.len()
                &&& final(self).inventories() == old(self).inventories() + with_ids(rows@, ids@)
                &&& forall|k: int|
                    0 <= k < ids@.len() && rows@[k].id is Some ==> Some(#[trigger] ids@[k])
                        == rows@[k].id
            },
            r matches Err(e) ==> {
                &&& e == LedgerError::DuplicateKey
                &&& exists|ids: Seq<ObjectId>|
                    {
                        &&& ids.len() < rows@.len()
                        &&& final(self).inventories() == old(self).inventories()
                            + #[trigger] with_ids(rows@, ids)
                        &&& rows@[ids.len() as int].id matches Some(id) ==> contains_id(
                            final(self).inventories(),
                            id,
                        )
                    }
            },
    {
        let mut ids: Vec<ObjectId> = Vec::new();
        let mut i: usize = 0;
        while i < rows.len()
            invariant
                i <= rows@.len(),
                ids@.len() == i,
                self.wf(),
                self.generate_inventories() == old(self).generate_inventories(),
                self.inventories() == old(self).inventories() + with_ids(rows@, ids@),
                forall|k: int|
                    0 <= k < ids@.len() && rows@[k].id is Some ==> Some(#[trigger] ids@[k])
                        == rows@[k].id,
            decreases rows@.len() - i,
        {
            let ghost before = self.inventories();
            let ghost ids_before = ids@;
            match self.insert_inventory(rows[i].clone()) {
                Ok(id) => {
                    ids.push(id);
                    proof {
                        assert(with_ids(rows@, ids@) =~= with_ids(rows@, ids_before).push(
                            with_id(rows@[i as int], id),
                        ));
                        assert(self.inventories() =~= old(self).inventories() + with_ids(
                            rows@,
                            ids@,
                        ));
                    }
                },
                Err(e) => {
                    proof {
                        if carry_new_ids(old(self).inventories(), rows@) {
                            let id = rows@[i as int].id.unwrap();
                            let at = choose|at: int|
                                0 <= at < before.len() && (#[trigger] before[at]).id == Some(id);
                            if at >= old(self).inventories().len() {
                                let k = at - old(self).inventories().len();
                                assert(before[at] == with_id(rows@[k], ids@[k]));
                                assert(Some(ids@[k]) == rows@[k].id);
                            }
                        }
                    }
                    return Err(e);
                },
            }
            i += 1;
        }
        Ok(ids)
    }

    /// Applies a batch of conditional updates atomically, the k-th stamping
    /// the unit it writes with `stamps[k]`. The batch is refused as a whole,
    /// and nothing is written, unless there is one stamp for each update and
    /// each stamp differs from the one that its update guards with. An update
    /// that finds no unit is no failure. Returns, for each update, whether it
    /// found its unit.
    pub fn transaction_with_stamps(
        &mut self,
        updates: &Vec<ConditionalUpdate>,
        stamps: &Vec<String>,
    ) -> (r: Result<Vec<bool>, LedgerError>)
        requires
            old(self).wf(),
        ensures
            final(self).wf(),
            final(self).generate_inventories() == old(self).generate_inventories(),
            r is Ok <==> stamps_rotate(updates@, stamps@),
            r matches Ok(matched) ==> {
                &&& final(self).inventories() == apply_updates(
                    old(self).inventories(),
                    updates@,
                    stamps@,
                )
                &&& matched@ == matched_flags(old(self).inventories(), updates@, stamps@)
            },
            r matches Err(e) ==> e == LedgerError::TransactionAborted && final(self).inventories()
                == old(self).inventories(),
    {
        if stamps.len() != updates.len() {
            return Err(LedgerError::TransactionAborted);
        }
        let mut c: usize = 0;
        while c < updates.len()
            invariant
                c <= updates@.len(),
                stamps@.len() == updates@.len(),
                self.wf(),
                self.inventories() == old(self).inventories(),
                self.generate_inventories() == old(self).generate_inventories(),
                forall|k: int|
                    0 <= k < c ==> (#[trigger] stamps@[k])@ != updates@[k].concurrency_stamp@,
            decreases updates@.len() - c,
        {
            if stamps[c] == updates[c].concurrency_stamp {
                return Err(LedgerError::TransactionAborted);
            }
            c += 1;
        }
        let mut matched: Vec<bool> = Vec::new();
        let mut k: usize = 0;
        while k < updates.len()
            invariant
                k <= updates@.len(),
                stamps@.len() == updates@.len(),
                matched@.len() == k,
                self.wf(),
                self.generate_inventories() == old(self).generate_inventories(),
                self.inventories() == apply_updates(
                    old(self).inventories(),
                    updates@.take(k as int),
                    stamps@.take(k as int),
                ),
                forall|m: int|
                    0 <= m < k ==> #[trigger] matched@[m] == updates@[m].is_matched(
                        apply_updates(
                            old(self).inventories(),
                            updates@.take(m),
                            stamps@.take(m),
                        ),
                    ),
            decreases updates@.len() - k,
        {
            let ghost before = self.inventories@;
            let ghost update = updates@[k as int];
            let ghost stamp = stamps@[k as int];
            let mut hit = false;
            let mut j: usize = 0;
            while j < self.inventories.len()
                invariant
                    j <= before.len(),
                    k < updates@.len(),
                    stamps@.len() == updates@.len(),
                    update == updates@[k as int],
                    stamp == stamps@[k as int],
                    self.inventories@.len() == before.len(),
                    self.generate_inventories@ == old(self).generate_inventories(),
                    forall|t: int|
                        0 <= t < j ==> #[trigger] self.inventories@[t] == apply_update(
                            before,
                            update,
                            stamp,
                        )[t],
                    forall|t: int|
                        j <= t < before.len() ==> #[trigger] self.inventories@[t] == before[t],
                    hit == (exists|t: int| 0 <= t < j && update.applies_to(#[trigger] before[t])),
                decreases before.len() - j,
            {
                let row = &self.inventories[j];
                let same_id = match row.id {
                    Some(id) => id == updates[k].id,
                    None => false,
                };
                if same_id && row.concurrency_stamp == updates[k].concurrency_stamp {
                    let written = Inventory {
                        id: row.id,
                        event_id: row.event_id,
                        status: updates[k].status,
                        reserved_until: match updates[k].reserved_until {
                            Some(until) => until,
                            None => row.reserved_until,
                        },
                        generate_inventory_id: row.generate_inventory_id,
                        concurrency_stamp: stamps[k].clone(),
                    };
                    assert(update.applies_to(before[j as int]));
                    assert(written == update.write(before[j as int], stamp));
                    self.inventories.set(j, written);
                    hit = true;
                } else {
                    assert(!update.applies_to(before[j as int]));
                }
                j += 1;
            }
            matched.push(hit);
            proof {
                assert(self.inventories@ =~= apply_update(before, update, stamp));
                lemma_apply_updates_step(
                    old(self).inventories(),
                    updates@,
                    stamps@,
                    k as int,
                );
                lemma_apply_update_well_formed(before, update, stamp);
            }
            k += 1;
        }
        proof {
            assert(updates@.take(k as int) =~= updates@);
            assert(stamps@.take(k as int) =~= stamps@);
            assert(matched@ =~= matched_flags(old(self).inventories(), updates@, stamps@));
        }
        Ok(matched)
    }

    /// Applies a batch of conditional updates atomically, stamping each unit
    /// it writes with a newly generated stamp: either every update of the
    /// batch has had its turn, or nothing is written. The batch is aborted
    /// where a generated stamp repeats the stamp that its update guards with.
    /// An empty batch has no stamp to repeat and always succeeds, and so
    /// does a batch none of whose updates guards with a stamp that can be
    /// generated.
    pub fn transaction(&mut self, updates: &Vec<ConditionalUpdate>) -> (r: Result<
        TransactionReport,
        LedgerError,
    >)
        requires
            old(self).wf(),
        ensures
            final(self).wf(),
            final(self).generate_inventories() == old(self).generate_inventories(),
            updates@.len() == 0 ==> r is Ok,
            !guards_generated_stamp(updates@) ==> r is Ok,
            r matches Ok(report) ==> {
                &&& stamps_rotate(updates@, report.stamps@)
                &&& final(self).inventories() == apply_updates(
                    old(self).inventories(),
                    updates@,
                    report.stamps@,
                )
                &&& report.matched@ == matched_flags(
                    old(self).inventories(),
                    updates@,
                    report.stamps@,
                )
                &&& forall|k: int|
                    0 <= k < report.stamps@.len() ==> is_generated_stamp(
                        (#[trigger] report.stamps@[k])@,
                    )
            },
            r matches Err(e) ==> e == LedgerError::TransactionAborted && final(self).inventories()
                == old(self).inventories(),
    {
        let mut stamps: Vec<String> = Vec::new();
        let mut k: usize = 0;
        while k < updates.len()
            invariant
                k <= updates@.len(),
                stamps@.len() == k,
                forall|m: int| 0 <= m < k ==> is_generated_stamp((#[trigger] stamps@[m])@),
            decreases updates@.len() - k,
        {
            let id = ObjectId::new();
            let stamp = id.to_hex();
            assert(is_generated_stamp(stamp@));
            stamps.push(stamp);
            k += 1;
        }
        match self.transaction_with_stamps(updates, &stamps) {
            Ok(matched) => Ok(TransactionReport { stamps, matched }),
            Err(e) => Err(e),
        }
    }

    /// Whether a generation request with the identifier `id` is stored.
    pub fn contains_generate_inventory(&self, id: ObjectId) -> (r: bool)
        ensures
            r == contains_request_id(self.generate_inventories(), id),
    {
        let mut i: usize = 0;
        while i < self.generate_inventories.len()
            invariant
                i <= self.generate_inventories@.len(),
                forall|k: int|
                    0 <= k < i ==> (#[trigger] self.generate_inventories@[k]).id != Some(id),
            decreases self.generate_inventories@.len() - i,
        {
            match self.generate_inventories[i].id {
                Some(other) => {
                    if other == id {
                        return true;
                    }
                },
                None => {},
            }
            i += 1;
        }
        false
    }

    /// The generation request with the identifier `id`, if one is stored.
    pub fn find_generate_inventory(&self, id: ObjectId) -> (r: Option<GenerateInventory>)
        ensures
            r is Some <==> contains_request_id(self.generate_inventories(), id),
            r matches Some(request) ==> request.id == Some(id)
                && self.generate_inventories().contains(request),
    {
        let mut i: usize = 0;
        while i < self.generate_inventories.len()
            invariant
                i <= self.generate_inventories@.len(),
                forall|k: int|
                    0 <= k < i ==> (#[trigger] self.generate_inventories@[k]).id != Some(id),
            decreases self.generate_inventories@.len() - i,
        {
            match self.generate_inventories[i].id {
                Some(other) => {
                    if other == id {
                        return Some(self.generate_inventories[i]);
                    }
                },
                None => {},
            }
            i += 1;
        }
        None
    }

    /// Stores `request` under the identifier `id`, unless that identifier is
    /// taken.
    pub fn insert_generate_inventory_with_id(
        &mut self,
        request: GenerateInventory,
        id: ObjectId,
    ) -> (r: Result<(), LedgerError>)
        requires
            old(self).wf(),
        ensures
            final(self).wf(),
            final(self).inventories() == old(self).inventories(),
            r is Ok <==> !contains_request_id(old(self).generate_inventories(), id),
            r is Ok ==> final(self).generate_inventories() == old(self).generate_inventories().push(
                request_with_id(request, id)),
            r matches Err(e) ==> e == LedgerError::DuplicateKey && final(self).generate_inventories(
                ) == old(self).generate_inventories(),
    {
        if self.contains_generate_inventory(id) {
            return Err(LedgerError::DuplicateKey);
        }
        self.generate_inventories.push(
            GenerateInventory {
                id: Some(id),
                event_id: request.event_id,
                number_to_create: request.number_to_create,
                status: request.status,
                created_at: request.created_at,
            },
        );
        Ok(())
    }

    /// Stores `request`. A request that comes without an identifier is given
    /// a newly generated one. Returns the identifier that the request is
    /// stored under. Fails, storing nothing, where the identifier is taken;
    /// in a ledger without requests none is.
    pub fn insert_generate_inventory(&mut self, request: GenerateInventory) -> (r: Result<
        ObjectId,
        LedgerError,
    >)
        requires
            old(self).wf(),
        ensures
            final(self).wf(),
            final(self).inventories() == old(self).inventories(),
            request.id matches Some(id) ==> (r is Ok <==> !contains_request_id(
                old(self).generate_inventories(),
                id,
            )),
            old(self).generate_inventories().len() == 0 ==> r is Ok,
            r matches Ok(id) ==> {
                &&& request.id is Some ==> request.id == Some(id)
                &&& !contains_request_id(old(self).generate_inventories(), id)
                &&& final(self).generate_inventories() == old(self).generate_inventories().push(
                    request_with_id(request, id),
                )
            },
            r matches Err(e) ==> e == LedgerError::DuplicateKey && final(self).generate_inventories(
                ) == old(self).generate_inventories(),
    {
        let id = match request.id {
            Some(id) => id,
            None => ObjectId::new(),
        };
        match self.insert_generate_inventory_with_id(request, id) {
            Ok(()) => Ok(id),
            Err(e) => Err(e),
        }
    }

    /// Sets the state of the generation request `id`. Returns whether such a
    /// request is stored.
    pub fn set_generate_inventory_status(
        &mut self,
        id: ObjectId,
        status: GenerateInventoryStatus,
    ) -> (r: bool)
        requires
            old(self).wf(),
        ensures
            final(self).wf(),
            final(self).inventories() == old(self).inventories(),
            r == contains_request_id(old(self).generate_inventories(), id),
            final(self).generate_inventories() == with_request_status(
                old(self).generate_inventories(),
                id,
                status,
            ),
    {
        let ghost before = self.generate_inventories@;
        let mut found = false;
        let mut i: usize = 0;
        while i < self.generate_inventories.len()
            invariant
                i <= before.len(),
                self.generate_inventories@.len() == before.len(),
                self.inventories@ == old(self).inventories(),
                forall|t: int|
                    0 <= t < i ==> #[trigger] self.generate_inventories@[t]
                        == with_request_status(before, id, status)[t],
                forall|t: int|
                    i <= t < before.len() ==> #[trigger] self.generate_inventories@[t]
                        == before[t],
                found == (exists|t: int| 0 <= t < i && (#[trigger] before[t]).id == Some(id)),
            decreases before.len() - i,
        {
            let request = self.generate_inventories[i];
            let same_id = match request.id {
                Some(other) => other == id,
                None => false,
            };
            if same_id {
                self.generate_inventories.set(
                    i,
                    GenerateInventory {
                        id: request.id,
                        event_id: request.event_id,
                        number_to_create: request.number_to_create,
                        status: status,
                        created_at: request.created_at,
                    },
                );
                found = true;
            }
            i += 1;
        }
        proof {
            assert(self.generate_inventories@ =~= with_request_status(before, id, status));
        }
        found
    }
}

/// One more update of a batch is one more application on top of what the
/// updates before it left.
pub proof fn lemma_apply_updates_step(
    rows: Seq<Inventory>,
    updates: Seq<ConditionalUpdate>,
    stamps: Seq<String>,
    k: int,
)
    requires
        0 <= k < updates.len(),
        stamps.len() == updates.len(),
    ensures
        apply_updates(rows, updates.take(k + 1), stamps.take(k + 1)) == apply_update(
            apply_updates(rows, updates.take(k), stamps.take(k)),
            updates[k],
            stamps[k],
        ),
{
    assert(updates.take(k + 1).drop_last() =~= updates.take(k));
    assert(stamps.take(k + 1).drop_last() =~= stamps.take(k));
    assert(updates.take(k + 1).last() == updates[k]);
    assert(stamps.take(k + 1).last() == stamps[k]);
}

/// A conditional update keeps the number of units and their identifiers.
pub proof fn lemma_apply_update_well_formed(
    rows: Seq<Inventory>,
    update: ConditionalUpdate,
    stamp: String,
)
    ensures
        apply_update(rows, update, stamp).len() == rows.len(),
        forall|i: int|
            0 <= i < rows.len() ==> (#[trigger] apply_update(rows, update, stamp)[i]).id
                == rows[i].id,
        inventories_well_formed(rows) ==> inventories_well_formed(
            apply_update(rows, update, stamp),
        ),
{
}

/// Extending a prefix by one unit extends its matching units by that unit,
/// or not at all.
pub proof fn lemma_matching_step(rows: Seq<Inventory>, query: InventoryQuery, i: int)
    requires
        0 <= i < rows.len(),
    ensures
        matching(rows.take(i + 1), query) == if query.matches(rows[i]) {
            matching(rows.take(i), query).push(rows[i])
        } else {
            matching(rows.take(i), query)
        },
{
    assert(rows.take(i + 1).drop_last() =~= rows.take(i));
    assert(rows.take(i + 1).last() == rows[i]);
}

/// The matching units of a prefix come first among the matching units of the
/// whole.
pub proof fn lemma_matching_prefix(rows: Seq<Inventory>, query: InventoryQuery, i: int)
    requires
        0 <= i <= rows.len(),
    ensures
        matching(rows.take(i), query).len() <= matching(rows, query).len(),
        matching(rows, query).take(matching(rows.take(i), query).len() as int) == matching(
            rows.take(i),
            query,
        ),
    decreases rows.len() - i,
{
    if i == rows.len() {
        assert(rows.take(i) =~= rows);
        assert(matching(rows, query).take(matching(rows, query).len() as int) =~= matching(
            rows,
            query,
        ));
    } else {
        lemma_matching_step(rows, query, i);
        lemma_matching_prefix(rows, query, i + 1);
        let small = matching(rows.take(i), query);
        let next = matching(rows.take(i + 1), query);
        let all = matching(rows, query);
        assert(all.take(next.len() as int) == next);
        assert(all.take(small.len() as int) =~= next.take(small.len() as int));
        assert(next.take(small.len() as int) =~= small);
    }
}


/// Where no unit satisfies a query, the query finds nothing.
pub proof fn lemma_none_matching(rows: Seq<Inventory>, query: InventoryQuery)
    requires
        forall|i: int| 0 <= i < rows.len() ==> !query.matches(#[trigger] rows[i]),
    ensures
        matching(rows, query).len() == 0,
    decreases rows.len(),
{
    if rows.len() > 0 {
        assert forall|i: int| 0 <= i < rows.drop_last().len() implies !query.matches(
            #[trigger] rows.drop_last()[i],
        ) by {
            assert(rows.drop_last()[i] == rows[i]);
        }
        lemma_none_matching(rows.drop_last(), query);
    }
}

/// Whether the unit at position `i` is among the first `limit` units of
/// `rows` that satisfy `query`.
pub open spec fn is_selected(rows: Seq<Inventory>, query: InventoryQuery, limit: nat,
    i: int) -> bool {
    &&& 0 <= i < rows.len()
    &&& query.matches(rows[i])
    &&& rank(rows, query, i) < limit
}

/// How many units before position `i` satisfy `query`.
pub open spec fn rank(rows: Seq<Inventory>, query: InventoryQuery, i: int) -> nat {
    matching(rows.take(i), query).len()
}

/// Whether each update of a batch guards one of the found units: the k-th
/// update names the k-th unit and the stamp that it carries.
pub open spec fn updates_guard(found: Seq<Inventory>, updates: Seq<ConditionalUpdate>) -> bool {
    &&& updates.len() == found.len()
    &&& forall|k: int|
        0 <= k < found.len() ==> (#[trigger] found[k]).id == Some(updates[k].id)
            && found[k].concurrency_stamp@ == updates[k].concurrency_stamp@
}

/// Whether the updates of a batch apply to distinct units of `rows`, the k-th
/// to the unit at position `index[k]`.
pub open spec fn updates_target(
    rows: Seq<Inventory>,
    updates: Seq<ConditionalUpdate>,
    index: Seq<int>,
) -> bool {
    &&& index.len() == updates.len()
    &&& forall|k: int|
        0 <= k < updates.len() ==> 0 <= #[trigger] index[k] < rows.len() && updates[k].applies_to(
            rows[index[k]],
        )
    &&& forall|k1: int, k2: int|
        0 <= k1 < updates.len() && 0 <= k2 < updates.len() && k1 != k2 ==> #[trigger] index[k1]
            != #[trigger] index[k2]
}

/// A unit that satisfies the query stands among the matching units at its
/// rank.
pub proof fn lemma_matching_at_rank(rows: Seq<Inventory>, query: InventoryQuery, i: int)
    requires
        0 <= i < rows.len(),
        query.matches(rows[i]),
    ensures
        rank(rows, query, i) < matching(rows, query).len(),
        matching(rows, query)[rank(rows, query, i) as int] == rows[i],
{
    lemma_matching_step(rows, query, i);
    lemma_matching_prefix(rows, query, i + 1);
    let next = matching(rows.take(i + 1), query);
    let all = matching(rows, query);
    assert(all.take(next.len() as int)[rank(rows, query, i) as int] == rows[i]);
}

/// Ranks grow along the units: a later position has at least the rank of an
/// earlier one, and more where the earlier unit satisfies the query.
pub proof fn lemma_rank_monotonic(rows: Seq<Inventory>, query: InventoryQuery, i: int, j: int)
    requires
        0 <= i < j <= rows.len(),
    ensures
        rank(rows, query, i) <= rank(rows, query, j),
        query.matches(rows[i]) ==> rank(rows, query, i) < rank(rows, query, j),
{
    let prefix = rows.take(j);
    assert(prefix.take(i) =~= rows.take(i));
    assert(prefix.take(i + 1) =~= rows.take(i + 1));
    lemma_matching_step(rows, query, i);
    lemma_matching_prefix(prefix, query, i + 1);
}

/// Every matching unit is a unit of `rows` that satisfies the query, at the
/// position whose rank is its place among the matching units.
pub proof fn lemma_matching_from_row(rows: Seq<Inventory>, query: InventoryQuery, k: int) -> (i:
    int)
    requires
        0 <= k < matching(rows, query).len(),
    ensures
        0 <= i < rows.len(),
        query.matches(rows[i]),
        rank(rows, query, i) == k,
        matching(rows, query)[k] == rows[i],
    decreases rows.len(),
{
    let before = matching(rows.drop_last(), query);
    if k < before.len() {
        let i = lemma_matching_from_row(rows.drop_last(), query, k);
        assert(rows.drop_last().take(i) =~= rows.take(i));
        i
    } else {
        let i = rows.len() - 1;
        assert(rows.take(i) =~= rows.drop_last());
        i
    }
}

/// The units that a query finds are units of the store: where none of the
/// store carries a stamp that can be generated, none of them does.
pub proof fn lemma_found_stamps(rows: Seq<Inventory>, query: InventoryQuery, limit: nat)
    requires
        !carries_generated_stamp(rows),
    ensures
        !carries_generated_stamp(first_matching(rows, query, limit)),
{
    let found = first_matching(rows, query, limit);
    if carries_generated_stamp(found) {
        let k = choose|k: int|
            0 <= k < found.len() && is_generated_stamp((#[trigger] found[k]).concurrency_stamp@);
        let i = lemma_matching_from_row(rows, query, k);
        assert(is_generated_stamp(rows[i].concurrency_stamp@));
    }
}

/// The units that a query finds in a well-formed store carry identifiers.
pub proof fn lemma_first_matching_identified(
    rows: Seq<Inventory>,
    query: InventoryQuery,
    limit: nat,
)
    requires
        inventories_well_formed(rows),
    ensures
        forall|k: int|
            0 <= k < first_matching(rows, query, limit).len() ==> (#[trigger] first_matching(
                rows,
                query,
                limit,
            )[k]).id is Some,
{
    let found = first_matching(rows, query, limit);
    assert forall|k: int| 0 <= k < found.len() implies (#[trigger] found[k]).id is Some by {
        let i = lemma_matching_from_row(rows, query, k);
    }
}

/// A batch that applies to distinct units writes exactly those units, each
/// with its own update and stamp, and every update of it finds its unit.
pub proof fn lemma_apply_targeted_updates(
    rows: Seq<Inventory>,
    updates: Seq<ConditionalUpdate>,
    stamps: Seq<String>,
    index: Seq<int>,
)
    requires
        inventories_well_formed(rows),
        updates_target(rows, updates, index),
        stamps.len() == updates.len(),
    ensures
        apply_updates(rows, updates, stamps).len() == rows.len(),
        inventories_well_formed(apply_updates(rows, updates, stamps)),
        forall|k: int|
            0 <= k < updates.len() ==> apply_updates(rows, updates, stamps)[#[trigger] index[k]]
                == updates[k].write(rows[index[k]], stamps[k]),
        forall|i: int|
            0 <= i < rows.len() && !index.contains(i) ==> #[trigger] apply_updates(
                rows,
                updates,
                stamps,
            )[i] == rows[i],
    decreases updates.len(),
{
    if updates.len() > 0 {
        let n = updates.len() - 1;
        let head = updates.drop_last();
        let head_stamps = stamps.drop_last();
        let head_index = index.drop_last();
        assert forall|k: int| 0 <= k < head.len() implies 0 <= #[trigger] head_index[k]
            < rows.len() && head[k].applies_to(rows[head_index[k]]) by {
            assert(head_index[k] == index[k]);
        }
        assert forall|k1: int, k2: int|
            0 <= k1 < head.len() && 0 <= k2 < head.len()
                && k1 != k2 implies #[trigger] head_index[k1]
            != #[trigger] head_index[k2] by {
            assert(head_index[k1] == index[k1]);
            assert(head_index[k2] == index[k2]);
        }
        lemma_apply_targeted_updates(rows, head, head_stamps, head_index);
        let mid = apply_updates(rows, head, head_stamps);
        let last = updates[n];
        let target = index[n];
        lemma_apply_update_well_formed(mid, last, stamps[n]);
        let result = apply_updates(rows, updates, stamps);
        assert(result == apply_update(mid, last, stamps[n]));
        assert(!head_index.contains(target)) by {
            if head_index.contains(target) {
                let k = choose|k: int| 0 <= k < head_index.len() && head_index[k] == target;
                assert(index[k] == head_index[k]);
                assert(index[k] != index[n]);
            }
        }
        assert(mid[target] == rows[target]);
        assert forall|i: int| 0 <= i < rows.len() && i != target implies !last.applies_to(
            #[trigger] mid[i],
        ) by {
            if !head_index.contains(i) {
                assert(mid[i] == rows[i]);
            } else {
                let k = choose|k: int| 0 <= k < head_index.len() && head_index[k] == i;
                assert(mid[head_index[k]] == head[k].write(rows[head_index[k]], head_stamps[k]));
            }
            assert(mid[i].id == rows[i].id);
            assert(rows[i].id != rows[target].id);
        }
        assert forall|k: int| 0 <= k < updates.len() implies result[#[trigger] index[k]]
            == updates[k].write(rows[index[k]], stamps[k]) by {
            if k < n {
                assert(index[k] == head_index[k]);
                assert(index[k] != index[n]);
                assert(mid[head_index[k]] == head[k].write(rows[head_index[k]], head_stamps[k]));
            }
        }
        assert forall|i: int| 0 <= i < rows.len() && !index.contains(i) implies #[trigger] result[i]
            == rows[i] by {
            assert(i != target) by {
                if i == target {
                    assert(index[n] == i);
                }
            }
            if head_index.contains(i) {
                let k = choose|k: int| 0 <= k < head_index.len() && head_index[k] == i;
                assert(index[k] == i);
            }
        }
    }
}

/// In a batch that applies to distinct units, every update finds its unit
/// when its turn comes.
pub proof fn lemma_targeted_updates_matched(
    rows: Seq<Inventory>,
    updates: Seq<ConditionalUpdate>,
    stamps: Seq<String>,
    index: Seq<int>,
)
    requires
        inventories_well_formed(rows),
        updates_target(rows, updates, index),
        stamps.len() == updates.len(),
    ensures
        forall|k: int|
            0 <= k < updates.len() ==> #[trigger] matched_flags(rows, updates, stamps)[k],
{
    assert forall|k: int| 0 <= k < updates.len() implies #[trigger] matched_flags(
        rows,
        updates,
        stamps,
    )[k] by {
        let head = updates.take(k);
        let head_index = index.take(k);
        assert forall|m: int| 0 <= m < head.len() implies 0 <= #[trigger] head_index[m]
            < rows.len() && head[m].applies_to(rows[head_index[m]]) by {
            assert(head_index[m] == index[m]);
        }
        assert forall|k1: int, k2: int|
            0 <= k1 < head.len() && 0 <= k2 < head.len()
                && k1 != k2 implies #[trigger] head_index[k1]
            != #[trigger] head_index[k2] by {
            assert(head_index[k1] == index[k1]);
            assert(head_index[k2] == index[k2]);
        }
        lemma_apply_targeted_updates(rows, head, stamps.take(k), head_index);
        let mid = apply_updates(rows, head, stamps.take(k));
        let target = index[k];
        assert(!head_index.contains(target)) by {
            if head_index.contains(target) {
                let m = choose|m: int| 0 <= m < head_index.len() && head_index[m] == target;
                assert(index[m] == head_index[m]);
                assert(index[m] != index[k]);
            }
        }
        assert(mid[target] == rows[target]);
        assert(updates[k].applies_to(mid[target]));
    }
}

/// A batch that guards the first `limit` units satisfying a query writes
/// exactly those units, each with the update of its rank, and every update of
/// the batch finds its unit.
pub proof fn lemma_update_selected(
    rows: Seq<Inventory>,
    query: InventoryQuery,
    limit: nat,
    updates: Seq<ConditionalUpdate>,
    stamps: Seq<String>,
)
    requires
        inventories_well_formed(rows),
        updates_guard(first_matching(rows, query, limit), updates),
        stamps.len() == updates.len(),
    ensures
        apply_updates(rows, updates, stamps).len() == rows.len(),
        inventories_well_formed(apply_updates(rows, updates, stamps)),
        forall|i: int|
            0 <= i < rows.len() ==> #[trigger] apply_updates(rows, updates, stamps)[i]
                == if is_selected(
                rows,
                query,
                limit,
                i,
            ) {
                updates[rank(rows, query, i) as int].write(
                    rows[i],
                    stamps[rank(rows, query, i) as int],
                )
            } else {
                rows[i]
            },
        forall|i: int|
            is_selected(rows, query, limit, i) ==> rank(rows, query, i) < updates.len(),
        forall|k: int|
            0 <= k < updates.len() ==> #[trigger] matched_flags(rows, updates, stamps)[k],
{
    let found = first_matching(rows, query, limit);
    let all = matching(rows, query);
    assert(forall|k: int| 0 <= k < found.len() ==> found[k] == all[k]);
    let index = Seq::new(
        updates.len(),
        |k: int| choose|i: int|
            0 <= i < rows.len() && query.matches(rows[i]) && rank(rows, query, i) == k && all[k]
                == rows[i],
    );
    assert forall|k: int| 0 <= k < updates.len() implies 0 <= #[trigger] index[k] < rows.len()
        && query.matches(rows[index[k]]) && rank(rows, query, index[k]) == k && all[k]
        == rows[index[k]] by {
        let i = lemma_matching_from_row(rows, query, k);
    }
    assert forall|k: int| 0 <= k < updates.len() implies updates[k].applies_to(
        rows[#[trigger] index[k]],
    ) by {
        assert(found[k] == rows[index[k]]);
    }
    assert(updates_target(rows, updates, index));
    lemma_apply_targeted_updates(rows, updates, stamps, index);
    lemma_targeted_updates_matched(rows, updates, stamps, index);
    let result = apply_updates(rows, updates, stamps);
    assert forall|i: int| 0 <= i < rows.len() implies #[trigger] result[i] == if is_selected(
        rows,
        query,
        limit,
        i,
    ) {
        updates[rank(rows, query, i) as int].write(rows[i], stamps[rank(rows, query, i) as int])
    } else {
        rows[i]
    } by {
        if is_selected(rows, query, limit, i) {
            lemma_matching_at_rank(rows, query, i);
            let k = rank(rows, query, i) as int;
            assert(k < found.len());
            let j = index[k];
            if j < i {
                lemma_rank_monotonic(rows, query, j, i);
            } else if i < j {
                lemma_rank_monotonic(rows, query, i, j);
            }
            assert(j == i);
        } else {
            if index.contains(i) {
                let k = choose|k: int| 0 <= k < index.len() && index[k] == i;
                assert(rank(rows, query, i) == k);
                assert(k < limit);
            }
        }
    }
    assert forall|i: int| is_selected(rows, query, limit, i) implies rank(rows, query, i)
        < updates.len() by {
        lemma_matching_at_rank(rows, query, i);
    }
}

} // verus!
