use digi_pass::inventories::data_models::{
    GenerateInventory, GenerateInventoryStatus, Inventory, InventoryStatus,
};
use digi_pass::inventories::application::InventoryService;
use digi_pass::inventories::data_transfer_objects::{
    GenerateInventory as GenerateInventoryRequest, ReserveInventories,
};
use digi_pass::inventories::errors::InventoryError;
use digi_pass::inventories::inventory_repository::{
    build_durable_receipts, build_receipts, build_reservation_updates, InMemoryInventoryRepository,
};
use digi_pass::inventory_keeper::application::InventoryKeeperService;
use digi_pass::inventory_keeper::persistence::{InventoryRepository, OrderTransactionRepository};
use digi_pass::ledger::{ConditionalUpdate, InventoryQuery, Ledger, LedgerError};
use digi_pass::object_id::ObjectId;

fn id(n: u8) -> ObjectId {
    ObjectId::from_bytes([n; 12])
}

fn unit(n: u8, event: u8, status: InventoryStatus, reserved_until: i64) -> Inventory {
    Inventory {
        id: Some(id(n)),
        event_id: id(event),
        status,
        reserved_until,
        generate_inventory_id: None,
        concurrency_stamp: format!("stamp-{}", n),
    }
}

fn ledger_of(units: Vec<Inventory>) -> Ledger {
    let mut ledger = Ledger::new();
    ledger.insert_many(units).unwrap();
    ledger
}

fn update(n: u8, stamp: &str, status: InventoryStatus, reserved_until: Option<i64>) -> ConditionalUpdate {
    ConditionalUpdate { id: id(n), concurrency_stamp: stamp.to_string(), status, reserved_until }
}

#[test]
fn an_identifier_is_stored_once() {
    let mut ledger = ledger_of(vec![unit(1, 9, InventoryStatus::Available, 0)]);
    assert_eq!(
        ledger.insert_inventory(unit(1, 9, InventoryStatus::Available, 0)),
        Err(LedgerError::DuplicateKey)
    );
    assert_eq!(ledger.len(), 1);
    assert!(ledger.contains(id(1)));
    assert!(!ledger.contains(id(2)));
}

#[test]
fn a_bulk_insert_stops_at_the_first_duplicate_and_keeps_what_came_before() {
    let mut ledger = ledger_of(vec![unit(1, 9, InventoryStatus::Available, 0)]);
    let outcome = ledger.insert_many(vec![
        unit(2, 9, InventoryStatus::Available, 0),
        unit(1, 9, InventoryStatus::Available, 0),
        unit(3, 9, InventoryStatus::Available, 0),
    ]);
    assert_eq!(outcome, Err(LedgerError::DuplicateKey));
    assert_eq!(ledger.len(), 2);
    assert!(ledger.contains(id(2)));
    assert!(!ledger.contains(id(3)));
}

#[test]
fn a_unit_without_identifier_is_given_one() {
    let mut ledger = Ledger::new();
    let mut row = unit(1, 9, InventoryStatus::Available, 0);
    row.id = None;
    let given = ledger.insert_inventory(row).unwrap();
    assert_eq!(ledger.get(0).unwrap().id, Some(given));
    assert_eq!(ledger.find_by_id(given).unwrap().concurrency_stamp, "stamp-1");
    assert!(ledger.find_by_id(id(5)).is_none());
}

#[test]
fn queries_answer_in_insertion_order_up_to_the_limit() {
    let ledger = ledger_of(vec![
        unit(1, 9, InventoryStatus::Available, 0),
        unit(2, 8, InventoryStatus::Available, 0),
        unit(3, 9, InventoryStatus::Reserved, 100),
        unit(4, 9, InventoryStatus::Reserved, 200),
        unit(5, 9, InventoryStatus::Sold, 0),
        unit(6, 9, InventoryStatus::Available, 0),
    ]);
    let free = InventoryQuery::Unreserved { event_id: id(9), cut_off: 150 };
    let found: Vec<_> = ledger.find(&free, 10).iter().map(|u| u.id.unwrap()).collect();
    assert_eq!(found, vec![id(1), id(3), id(6)]);
    let found: Vec<_> = ledger.find(&free, 2).iter().map(|u| u.id.unwrap()).collect();
    assert_eq!(found, vec![id(1), id(3)]);
    assert!(ledger.find(&free, 0).is_empty());
    assert_eq!(ledger.count(&free), 3);

    let lapsed = InventoryQuery::StatusBefore { status: InventoryStatus::Reserved, cut_off: 200 };
    let found: Vec<_> = ledger.find(&lapsed, 10).iter().map(|u| u.id.unwrap()).collect();
    assert_eq!(found, vec![id(3)]);
    assert_eq!(
        ledger.count(&InventoryQuery::GeneratedBy { generate_inventory_id: id(7) }),
        0
    );
}

#[test]
fn an_update_applies_only_under_the_stamp_it_names() {
    let mut ledger = ledger_of(vec![
        unit(1, 9, InventoryStatus::Available, 0),
        unit(2, 9, InventoryStatus::Reserved, 50),
    ]);
    let updates = vec![
        update(1, "stamp-1", InventoryStatus::Reserved, Some(900)),
        update(2, "stale", InventoryStatus::Sold, None),
        update(7, "stamp-7", InventoryStatus::Sold, None),
    ];
    let stamps = vec!["a".to_string(), "b".to_string(), "c".to_string()];
    let matched = ledger.transaction_with_stamps(&updates, &stamps).unwrap();
    assert_eq!(matched, vec![true, false, false]);
    let first = ledger.get(0).unwrap();
    assert_eq!(first.status, InventoryStatus::Reserved);
    assert_eq!(first.reserved_until, 900);
    assert_eq!(first.concurrency_stamp, "a");
    let second = ledger.get(1).unwrap();
    assert_eq!(second.status, InventoryStatus::Reserved);
    assert_eq!(second.reserved_until, 50);
    assert_eq!(second.concurrency_stamp, "stamp-2");
}

#[test]
fn an_update_without_reservation_end_keeps_the_end() {
    let mut ledger = ledger_of(vec![unit(1, 9, InventoryStatus::Reserved, 50)]);
    let matched = ledger
        .transaction_with_stamps(
            &vec![update(1, "stamp-1", InventoryStatus::Sold, None)],
            &vec!["next".to_string()],
        )
        .unwrap();
    assert_eq!(matched, vec![true]);
    let unit = ledger.get(0).unwrap();
    assert_eq!(unit.status, InventoryStatus::Sold);
    assert_eq!(unit.reserved_until, 50);
}

#[test]
fn the_second_of_two_updates_under_one_stamp_finds_nothing() {
    let mut ledger = ledger_of(vec![unit(1, 9, InventoryStatus::Available, 0)]);
    let updates = vec![
        update(1, "stamp-1", InventoryStatus::Reserved, Some(10)),
        update(1, "stamp-1", InventoryStatus::Sold, None),
    ];
    let matched = ledger
        .transaction_with_stamps(&updates, &vec!["a".to_string(), "b".to_string()])
        .unwrap();
    assert_eq!(matched, vec![true, false]);
    assert_eq!(ledger.get(0).unwrap().status, InventoryStatus::Reserved);
}

#[test]
fn a_batch_is_aborted_as_a_whole() {
    let mut ledger = ledger_of(vec![
        unit(1, 9, InventoryStatus::Available, 0),
        unit(2, 9, InventoryStatus::Available, 0),
    ]);
    let updates = vec![
        update(1, "stamp-1", InventoryStatus::Reserved, Some(10)),
        update(2, "stamp-2", InventoryStatus::Reserved, Some(10)),
    ];
    // the second stamp repeats the stamp that its update guards with
    let aborted =
        ledger.transaction_with_stamps(&updates, &vec!["a".to_string(), "stamp-2".to_string()]);
    assert_eq!(aborted, Err(LedgerError::TransactionAborted));
    assert_eq!(ledger.get(0).unwrap().status, InventoryStatus::Available);
    assert_eq!(ledger.get(0).unwrap().concurrency_stamp, "stamp-1");
    // one stamp too few
    let aborted = ledger.transaction_with_stamps(&updates, &vec!["a".to_string()]);
    assert_eq!(aborted, Err(LedgerError::TransactionAborted));
    assert_eq!(ledger.get(1).unwrap().status, InventoryStatus::Available);
}

#[test]
fn a_transaction_stamps_with_new_stamps() {
    let mut ledger = ledger_of(vec![unit(1, 9, InventoryStatus::Available, 0)]);
    let report = ledger
        .transaction(&vec![update(1, "stamp-1", InventoryStatus::Reserved, Some(10))])
        .unwrap();
    assert_eq!(report.matched, vec![true]);
    assert_eq!(report.stamps.len(), 1);
    assert_eq!(ledger.get(0).unwrap().concurrency_stamp, report.stamps[0]);
    assert_ne!(report.stamps[0], "stamp-1");
}

#[test]
fn generation_requests_are_stored_found_and_completed() {
    let mut ledger = Ledger::new();
    let request = GenerateInventory {
        id: None,
        event_id: id(9),
        number_to_create: 5,
        status: GenerateInventoryStatus::Pending,
        created_at: 77,
    };
    let given = ledger.insert_generate_inventory(request).unwrap();
    assert!(ledger.contains_generate_inventory(given));
    let found = ledger.find_generate_inventory(given).unwrap();
    assert_eq!(found.number_to_create, 5);
    assert_eq!(found.created_at, 77);
    assert_eq!(found.status, GenerateInventoryStatus::Pending);
    assert_eq!(
        ledger.insert_generate_inventory(GenerateInventory { id: Some(given), ..request }),
        Err(LedgerError::DuplicateKey)
    );
    assert!(ledger.set_generate_inventory_status(given, GenerateInventoryStatus::Completed));
    assert_eq!(
        ledger.find_generate_inventory(given).unwrap().status,
        GenerateInventoryStatus::Completed
    );
    assert!(!ledger.set_generate_inventory_status(id(3), GenerateInventoryStatus::Completed));
    assert!(ledger.find_generate_inventory(id(3)).is_none());
}

#[test]
fn the_repository_reads_free_units_of_one_event() {
    let repository = InMemoryInventoryRepository::new(ledger_of(vec![
        unit(1, 9, InventoryStatus::Available, 0),
        unit(2, 8, InventoryStatus::Available, 0),
        unit(3, 9, InventoryStatus::Reserved, 100),
    ]));
    let event = id(9).to_hex();
    let found = repository.get_unreserved_inventories(event.clone(), 5, 101).unwrap();
    assert_eq!(found.len(), 2);
    let found = repository.get_unreserved_inventories(event.clone(), 5, 100).unwrap();
    assert_eq!(found.len(), 1);
    let found = repository.get_unreserved_inventories(event.clone(), 1, 101).unwrap();
    assert_eq!(found[0].id, Some(id(1)));
    assert!(repository.get_unreserved_inventories(event, -2, 101).unwrap().is_empty());
    assert_eq!(
        repository.get_unreserved_inventories("bad".to_string(), 1, 0).unwrap_err(),
        InventoryError::MalformedId
    );
}

#[test]
fn updates_and_receipts_skip_units_without_identifier() {
    let mut without = unit(2, 9, InventoryStatus::Reserved, 20);
    without.id = None;
    let units = vec![unit(1, 9, InventoryStatus::Reserved, 10), without];
    let updates = build_reservation_updates(&units);
    assert_eq!(updates.len(), 1);
    assert_eq!(updates[0].id, id(1));
    assert_eq!(updates[0].concurrency_stamp, "stamp-1");
    assert_eq!(updates[0].status, InventoryStatus::Reserved);
    assert_eq!(updates[0].reserved_until, Some(10));
    let receipts = build_receipts(&units);
    assert_eq!(receipts.len(), 1);
    assert_eq!(receipts[0].inventory_id, "010101010101010101010101");
    assert_eq!(receipts[0].reserved_until, 10);
}

#[test]
fn inventory_errors_have_messages() {
    assert_eq!(
        InventoryError::InsufficientInventory { requested: 3, found: 12 }.to_string(),
        "Not enough inventories: 12"
    );
    assert_eq!(InventoryError::MalformedId.to_string(), "Malformed identifier");
    assert_eq!(InventoryError::InvalidQuantity.to_string(), "Invalid quantity");
    assert_eq!(InventoryError::TransactionAborted.to_string(), "Transaction aborted");
    assert_eq!(InventoryError::DuplicateKey.to_string(), "Duplicate key");
    assert_eq!(
        InventoryError::GenerateInventoryNotFound.to_string(),
        "GenerateInventory not found"
    );
    assert_eq!(
        InventoryError::from_ledger(LedgerError::TransactionAborted),
        InventoryError::TransactionAborted
    );
    assert_eq!(
        InventoryError::from_ledger(LedgerError::DuplicateKey),
        InventoryError::DuplicateKey
    );
}

#[test]
fn durable_receipts_are_for_the_units_that_were_written() {
    let mut without = unit(2, 9, InventoryStatus::Reserved, 20);
    without.id = None;
    let units = vec![
        unit(1, 9, InventoryStatus::Reserved, 10),
        without,
        unit(3, 9, InventoryStatus::Reserved, 30),
        unit(4, 9, InventoryStatus::Reserved, 40),
    ];
    let receipts = build_durable_receipts(&units, &vec![false, true, true]);
    assert_eq!(receipts.len(), 2);
    assert_eq!(receipts[0].inventory_id, "030303030303030303030303");
    assert_eq!(receipts[1].inventory_id, "040404040404040404040404");
    assert!(build_durable_receipts(&units, &vec![]).is_empty());
    assert_eq!(build_durable_receipts(&units, &vec![true]).len(), 1);
}

#[test]
fn units_with_hand_made_stamps_are_reserved_and_swept_without_fail() {
    // No generated stamp can repeat a stamp that is no identifier, so the
    // ledger has no reason to abort these batches.
    let ledger = ledger_of(vec![
        unit(1, 9, InventoryStatus::Available, 0),
        unit(2, 9, InventoryStatus::Reserved, 50),
        unit(3, 9, InventoryStatus::Available, 0),
    ]);
    let mut service = InventoryService::new(InMemoryInventoryRepository::new(ledger));
    let request = ReserveInventories { event_id: id(9).to_hex(), quantity: 2 };
    let result = service.reserve_inventories_at(&request, 100).unwrap();
    assert_eq!(result.reserved_inventories.len(), 2);
    assert_eq!(result.reserved_inventories[0].inventory_id, id(1).to_hex());
    assert_eq!(result.reserved_inventories[1].inventory_id, id(2).to_hex());

    let ledger = ledger_of(vec![
        unit(4, 9, InventoryStatus::Reserved, 50),
        unit(5, 9, InventoryStatus::Reserved, 500),
    ]);
    let mut keeper = InventoryKeeperService::new(
        InventoryRepository::new(ledger, "digi-pass".to_string(), "Inventories".to_string()),
        OrderTransactionRepository::new(
            vec![],
            "digi-pass".to_string(),
            "OrderTransactions".to_string(),
        ),
    );
    keeper.do_inventory_keeping_at(100).unwrap();
    let ledger = &keeper.inventory_repository.ledger;
    assert_eq!(ledger.get(0).unwrap().status, InventoryStatus::Available);
    assert_ne!(ledger.get(0).unwrap().concurrency_stamp, "stamp-4");
    assert_eq!(ledger.get(1).unwrap().status, InventoryStatus::Reserved);
    assert_eq!(ledger.get(1).unwrap().concurrency_stamp, "stamp-5");
}

#[test]
fn the_first_record_of_a_store_is_always_stored() {
    let mut ledger = Ledger::new();
    let nameless = Inventory { id: None, ..unit(1, 9, InventoryStatus::Available, 0) };
    let given = ledger.insert_inventory(nameless).unwrap();
    assert_eq!(ledger.get(0).unwrap().id, Some(given));

    let mut service = InventoryService::new(InMemoryInventoryRepository::new(Ledger::new()));
    let request = GenerateInventoryRequest { event_id: id(9).to_hex(), number_to_create: 3 };
    let receipt = service.generate_at(&request, 100).unwrap();
    assert_eq!(receipt.satus, "pending");
    assert!(ObjectId::parse_str(&receipt.id).is_ok());
}

#[test]
fn units_with_new_identifiers_of_their_own_are_all_stored() {
    let mut ledger = ledger_of(vec![unit(1, 9, InventoryStatus::Available, 0)]);
    let ids = ledger
        .insert_many(vec![
            unit(2, 9, InventoryStatus::Available, 0),
            unit(3, 9, InventoryStatus::Available, 0),
        ])
        .unwrap();
    assert_eq!(ids, vec![id(2), id(3)]);
    assert_eq!(ledger.get(2).unwrap().id, Some(id(3)));
    assert!(ledger.insert_many(vec![]).unwrap().is_empty());
}
