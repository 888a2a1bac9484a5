use digi_pass::inventories::application::InventoryService;
use digi_pass::inventories::constants::{
    INVENTORY_STATUS_AVAILABLE, INVENTORY_STATUS_RESERVED, INVENTORY_STATUS_SOLD,
    RESERVATION_WINDOW_MILLIS,
};
use digi_pass::inventories::data_models::InventoryStatus;
use digi_pass::inventories::data_transfer_objects::{CreateInventoryBatch, ReserveInventories};
use digi_pass::inventories::inventory_repository::InMemoryInventoryRepository;
use digi_pass::inventory_keeper::application::{
    create_inventory_update, get_inventory_updates, order_contains_inventory,
    InventoryKeeperService,
};
use digi_pass::inventory_keeper::models::Inventory;
use digi_pass::inventory_keeper::models::InventoryUpdate;
use digi_pass::inventory_keeper::persistence::{
    build_status_updates, InventoryRepository, OrderTransactionRepository, SWEEP_PAGE_SIZE,
};
use digi_pass::ledger::Ledger;
use digi_pass::object_id::ObjectId;
use digi_pass::orders::data_models::{
    OrderTransaction, OrderTransactionItem, OrderTransactionItemInventory,
};

const EVENT: &str = "65f0a1b2c3d4e5f60718293a";

fn new_id() -> ObjectId {
    ObjectId::from_bytes(bson::oid::ObjectId::new().bytes())
}

fn order_for(inventory_ids: &[ObjectId]) -> OrderTransaction {
    OrderTransaction {
        id: new_id(),
        order_id: new_id(),
        transaction_type: "sale".to_string(),
        basket_id: None,
        items: vec![OrderTransactionItem {
            id: "item-1".to_string(),
            created_at: 0,
            price: 0,
            inventories: inventory_ids
                .iter()
                .map(|id| OrderTransactionItemInventory {
                    id: "item-1-1".to_string(),
                    inventory_id: *id,
                    event_id: new_id(),
                    name: String::new(),
                    created_at: 0,
                })
                .collect(),
        }],
        payments: vec![],
        created_at: 0,
    }
}

#[test]
fn test_create_inventory_update_sold() {
    //arrange
    let inventory_id = new_id();
    let inventory = Inventory {
        id: inventory_id.clone(),
        concurrency_stamp: Default::default(),
        status: InventoryStatus::parse(INVENTORY_STATUS_RESERVED).unwrap(),
    };

    let order_transaction = order_for(&[inventory.id.clone()]);

    //act
    let inventory_update = create_inventory_update(&inventory, &vec![order_transaction]);
    //asert
    assert_eq!(inventory_update.status.to_string(), INVENTORY_STATUS_SOLD.to_string());
}

#[test]
fn test_create_inventory_update_available() {
    //arrange
    let inventory_id = new_id();
    let inventory = Inventory {
        id: inventory_id.clone(),
        concurrency_stamp: Default::default(),
        status: InventoryStatus::parse(INVENTORY_STATUS_RESERVED).unwrap(),
    };

    let order_transaction = order_for(&[new_id()]);

    //act
    let inventory_update = create_inventory_update(&inventory, &vec![order_transaction]);

    //assert
    assert_eq!(inventory_update.status.to_string(), INVENTORY_STATUS_AVAILABLE.to_string());
}

#[test]
fn inventory_update_keeps_identifier_and_stamp() {
    let inventory = Inventory {
        id: new_id(),
        concurrency_stamp: "stamp-1".to_string(),
        status: InventoryStatus::Reserved,
    };
    let update = create_inventory_update(&inventory, &vec![]);
    assert_eq!(update.id, inventory.id);
    assert_eq!(update.concurrency_stamp, "stamp-1");
    assert_eq!(update.status, InventoryStatus::Available);
}

#[test]
fn order_evidence_is_found_in_any_item_of_any_order() {
    let wanted = new_id();
    let mut second = order_for(&[new_id()]);
    second.items.push(OrderTransactionItem {
        id: "item-2".to_string(),
        created_at: 0,
        price: 0,
        inventories: vec![OrderTransactionItemInventory {
            id: "item-2-1".to_string(),
            inventory_id: wanted,
            event_id: new_id(),
            name: String::new(),
            created_at: 0,
        }],
    });
    let orders = vec![order_for(&[new_id(), new_id()]), second];
    assert!(order_contains_inventory(&orders, &wanted));
    assert!(!order_contains_inventory(&orders, &new_id()));
    assert!(!order_contains_inventory(&vec![], &wanted));
}

#[test]
fn updates_come_one_for_each_inventory_in_order() {
    let sold = new_id();
    let free = new_id();
    let inventories = vec![
        Inventory { id: sold, concurrency_stamp: "a".to_string(), status: InventoryStatus::Reserved },
        Inventory { id: free, concurrency_stamp: "b".to_string(), status: InventoryStatus::Reserved },
    ];
    let updates = get_inventory_updates(inventories, &vec![order_for(&[sold])]);
    assert_eq!(updates.len(), 2);
    assert_eq!(updates[0].id, sold);
    assert_eq!(updates[0].status, InventoryStatus::Sold);
    assert_eq!(updates[1].id, free);
    assert_eq!(updates[1].status, InventoryStatus::Available);
}

fn reserved_ledger(units: i32, reserve: i32, now: i64) -> (Ledger, Vec<ObjectId>) {
    let mut service = InventoryService::new(InMemoryInventoryRepository::new(Ledger::new()));
    service
        .add_batch(&CreateInventoryBatch {
            event_id: EVENT.to_string(),
            quantity: units,
            generate_inventory_id: None,
        })
        .unwrap();
    let receipts = service
        .reserve_inventories_at(
            &ReserveInventories { event_id: EVENT.to_string(), quantity: reserve },
            now,
        )
        .unwrap();
    let ids = receipts
        .reserved_inventories
        .iter()
        .map(|receipt| ObjectId::parse_str(&receipt.inventory_id).unwrap())
        .collect();
    (service.inventory_repository.ledger, ids)
}

fn keeper(ledger: Ledger, orders: Vec<OrderTransaction>) -> InventoryKeeperService {
    InventoryKeeperService::new(
        InventoryRepository::new(ledger, "db".to_string(), "Inventories".to_string()),
        OrderTransactionRepository::new(orders, "db".to_string(), "OrderTransactions".to_string()),
    )
}

fn statuses(ledger: &Ledger) -> Vec<InventoryStatus> {
    (0..ledger.len()).map(|index| ledger.get(index).unwrap().status).collect()
}

fn stamps(ledger: &Ledger) -> Vec<String> {
    (0..ledger.len()).map(|index| ledger.get(index).unwrap().concurrency_stamp).collect()
}

#[test]
fn sweep_sells_ordered_units_and_frees_the_others() {
    let now = 1_000_000;
    let (ledger, reserved) = reserved_ledger(4, 3, now);
    let mut keeper = keeper(ledger, vec![order_for(&[reserved[1]])]);
    keeper.do_inventory_keeping_at(now + RESERVATION_WINDOW_MILLIS + 1).unwrap();
    assert_eq!(
        statuses(&keeper.inventory_repository.ledger),
        vec![
            InventoryStatus::Available,
            InventoryStatus::Sold,
            InventoryStatus::Available,
            InventoryStatus::Available
        ]
    );
}

#[test]
fn sweep_leaves_reservations_that_have_not_lapsed() {
    let now = 1_000_000;
    let (ledger, reserved) = reserved_ledger(2, 2, now);
    let before = stamps(&ledger);
    let mut keeper = keeper(ledger, vec![order_for(&[reserved[0]])]);
    // the reservation lapses strictly after its end
    keeper.do_inventory_keeping_at(now + RESERVATION_WINDOW_MILLIS).unwrap();
    assert_eq!(
        statuses(&keeper.inventory_repository.ledger),
        vec![InventoryStatus::Reserved, InventoryStatus::Reserved]
    );
    assert_eq!(stamps(&keeper.inventory_repository.ledger), before);
}

#[test]
fn sweep_rotates_the_stamp_of_what_it_resolves() {
    let now = 1_000_000;
    let (ledger, _) = reserved_ledger(2, 1, now);
    let before = stamps(&ledger);
    let mut keeper = keeper(ledger, vec![]);
    keeper.do_inventory_keeping_at(now + RESERVATION_WINDOW_MILLIS + 1).unwrap();
    let after = stamps(&keeper.inventory_repository.ledger);
    assert_ne!(after[0], before[0]);
    assert_eq!(after[1], before[1]);
}

#[test]
fn a_second_sweep_changes_nothing() {
    let now = 1_000_000;
    let later = now + RESERVATION_WINDOW_MILLIS + 1;
    let (ledger, reserved) = reserved_ledger(5, 4, now);
    let mut keeper = keeper(ledger, vec![order_for(&[reserved[0], reserved[3]])]);
    keeper.do_inventory_keeping_at(later).unwrap();
    let statuses_once = statuses(&keeper.inventory_repository.ledger);
    let stamps_once = stamps(&keeper.inventory_repository.ledger);
    keeper.do_inventory_keeping_at(later).unwrap();
    assert_eq!(statuses(&keeper.inventory_repository.ledger), statuses_once);
    assert_eq!(stamps(&keeper.inventory_repository.ledger), stamps_once);
}

#[test]
fn a_sold_unit_is_never_reserved_or_swept_again() {
    let now = 1_000_000;
    let later = now + RESERVATION_WINDOW_MILLIS + 1;
    let (ledger, reserved) = reserved_ledger(1, 1, now);
    let mut keeper = keeper(ledger, vec![order_for(&[reserved[0]])]);
    keeper.do_inventory_keeping_at(later).unwrap();
    let sold = keeper.inventory_repository.ledger.get(0).unwrap();
    assert_eq!(sold.status, InventoryStatus::Sold);

    let mut service =
        InventoryService::new(InMemoryInventoryRepository::new(keeper.inventory_repository.ledger));
    let again = service.reserve_inventories_at(
        &ReserveInventories { event_id: EVENT.to_string(), quantity: 1 },
        later + 10 * RESERVATION_WINDOW_MILLIS,
    );
    assert!(again.is_err());
    let ledger = service.inventory_repository.ledger;
    assert_eq!(ledger.get(0).unwrap().concurrency_stamp, sold.concurrency_stamp);

    let mut keeper = self::keeper(ledger, vec![]);
    keeper.do_inventory_keeping_at(later + 20 * RESERVATION_WINDOW_MILLIS).unwrap();
    assert_eq!(keeper.inventory_repository.ledger.get(0).unwrap().status, InventoryStatus::Sold);
}

#[test]
fn an_ordered_unit_is_sold_after_another_reserved_cycle() {
    let now = 1_000_000;
    let (ledger, reserved) = reserved_ledger(1, 1, now);
    // the reservation lapses and the unit is reserved once more before any sweep
    let mut service = InventoryService::new(InMemoryInventoryRepository::new(ledger));
    let second = now + RESERVATION_WINDOW_MILLIS + 1;
    service
        .reserve_inventories_at(&ReserveInventories { event_id: EVENT.to_string(), quantity: 1 }, second)
        .unwrap();
    let mut keeper =
        keeper(service.inventory_repository.ledger, vec![order_for(&[reserved[0]])]);
    keeper.do_inventory_keeping_at(second + 1).unwrap();
    assert_eq!(keeper.inventory_repository.ledger.get(0).unwrap().status, InventoryStatus::Reserved);
    keeper.do_inventory_keeping_at(second + RESERVATION_WINDOW_MILLIS + 1).unwrap();
    assert_eq!(keeper.inventory_repository.ledger.get(0).unwrap().status, InventoryStatus::Sold);
}

#[test]
fn a_sweep_resolves_one_page_and_the_next_sweep_the_rest() {
    let now = 1_000_000;
    let later = now + RESERVATION_WINDOW_MILLIS + 1;
    let units = SWEEP_PAGE_SIZE as i32 + 5;
    let (ledger, _) = reserved_ledger(units, units, now);
    let mut keeper = keeper(ledger, vec![]);
    keeper.do_inventory_keeping_at(later).unwrap();
    let after_first = statuses(&keeper.inventory_repository.ledger);
    assert_eq!(
        after_first.iter().filter(|status| **status == InventoryStatus::Available).count(),
        SWEEP_PAGE_SIZE
    );
    assert!(after_first[..SWEEP_PAGE_SIZE]
        .iter()
        .all(|status| *status == InventoryStatus::Available));
    keeper.do_inventory_keeping_at(later).unwrap();
    assert!(statuses(&keeper.inventory_repository.ledger)
        .iter()
        .all(|status| *status == InventoryStatus::Available));
}

#[test]
fn keeper_reads_only_orders_that_hold_one_of_the_units() {
    let wanted = new_id();
    let repository = OrderTransactionRepository::new(
        vec![order_for(&[new_id()]), order_for(&[new_id(), wanted]), order_for(&[])],
        "db".to_string(),
        "OrderTransactions".to_string(),
    );
    let found = repository.get_order_tranactions(vec![new_id(), wanted]);
    assert_eq!(found.len(), 1);
    assert_eq!(found[0].id, repository.transactions[1].id);
    assert!(repository.get_order_tranactions(vec![]).is_empty());
}

#[test]
fn sweep_against_the_clock_frees_a_reservation_of_long_ago() {
    let (ledger, _) = reserved_ledger(1, 1, 1_000_000);
    let mut keeper = keeper(ledger, vec![]);
    keeper.do_inventory_keeping().unwrap();
    assert_eq!(keeper.inventory_repository.ledger.get(0).unwrap().status, InventoryStatus::Available);
}

#[test]
fn status_names_are_read_back() {
    for status in [InventoryStatus::Available, InventoryStatus::Reserved, InventoryStatus::Sold] {
        assert_eq!(InventoryStatus::parse(status.as_str()), Some(status));
    }
    assert_eq!(InventoryStatus::Available.as_str(), "Available");
    assert_eq!(InventoryStatus::Reserved.as_str(), "Reserved");
    assert_eq!(InventoryStatus::Sold.as_str(), "Sold");
    assert_eq!(InventoryStatus::parse("sold"), None);
}

#[test]
fn status_updates_guard_with_the_stamp_and_leave_the_reservation_end() {
    let id = new_id();
    let updates = build_status_updates(&[InventoryUpdate {
        id,
        status: InventoryStatus::Sold,
        concurrency_stamp: "read".to_string(),
    }]);
    assert_eq!(updates.len(), 1);
    assert_eq!(updates[0].id, id);
    assert_eq!(updates[0].status, InventoryStatus::Sold);
    assert_eq!(updates[0].concurrency_stamp, "read");
    assert_eq!(updates[0].reserved_until, None);
    assert!(build_status_updates(&[]).is_empty());
}
