use digi_pass::inventories::data_models::InventoryStatus;
use digi_pass::inventories::data_transfer_objects::{
    CreateInventoryBatch, GenerateInventory, ReserveInventories,
};
use digi_pass::inventory_keeper::models::InventoryUpdate;
use digi_pass::inventory_keeper::persistence::batch_update_inventory_status;
use digi_pass::inventory_keeper::persistence::internals::UpdateInventoriesContext;
use digi_pass::ledger::Ledger;
use digi_pass::object_id::ObjectId;
use digi_pass::validation::{validation_result, ValidatedJson, ValidationError};

#[test]
fn generation_requests_need_an_event_and_a_positive_number() {
    assert!(GenerateInventory { event_id: "e".to_string(), number_to_create: 1 }.validate().is_ok());
    assert_eq!(
        GenerateInventory { event_id: "e".to_string(), number_to_create: 0 }
            .validate()
            .unwrap_err()
            .errors,
        vec![ValidationError::NumberToCreateOutOfRange]
    );
    assert_eq!(
        GenerateInventory { event_id: String::new(), number_to_create: -5 }
            .validate()
            .unwrap_err()
            .errors,
        vec![ValidationError::EventIdEmpty, ValidationError::NumberToCreateOutOfRange]
    );
}

#[test]
fn batches_hold_between_one_and_a_thousand_units() {
    let batch = |quantity| CreateInventoryBatch {
        event_id: "e".to_string(),
        quantity,
        generate_inventory_id: None,
    };
    assert!(batch(1).validate().is_ok());
    assert!(batch(1000).validate().is_ok());
    assert_eq!(batch(0).validate().unwrap_err().errors, vec![ValidationError::QuantityOutOfRange]);
    assert_eq!(batch(1001).validate().unwrap_err().errors, vec![ValidationError::QuantityOutOfRange]);
}

#[test]
fn reservations_ask_for_between_one_and_ten_units() {
    let request = |quantity| ReserveInventories { event_id: "e".to_string(), quantity };
    assert!(request(1).validate().is_ok());
    assert!(request(10).validate().is_ok());
    assert_eq!(request(0).validate().unwrap_err().errors, vec![ValidationError::QuantityOutOfRange]);
    assert_eq!(request(11).validate().unwrap_err().errors, vec![ValidationError::QuantityOutOfRange]);
    assert_eq!(
        ReserveInventories { event_id: String::new(), quantity: 3 }.validate().unwrap_err().errors,
        vec![ValidationError::EventIdEmpty]
    );
}

#[test]
fn a_validation_without_errors_passes() {
    assert!(validation_result(vec![]).is_ok());
    assert_eq!(
        validation_result(vec![ValidationError::JwtEmpty]).unwrap_err().errors,
        vec![ValidationError::JwtEmpty]
    );
    let validated = ValidatedJson(ReserveInventories { event_id: "e".to_string(), quantity: 2 });
    assert_eq!(validated.0.quantity, 2);
}

#[test]
fn a_batch_of_status_updates_is_applied_from_its_context() {
    let mut ledger = Ledger::new();
    let id = ledger
        .insert_inventory(digi_pass::inventories::data_models::Inventory {
            id: None,
            event_id: ObjectId::from_bytes([9; 12]),
            status: InventoryStatus::Reserved,
            reserved_until: 5,
            generate_inventory_id: None,
            concurrency_stamp: "first".to_string(),
        })
        .unwrap();
    let updates = vec![
        InventoryUpdate { id, status: InventoryStatus::Sold, concurrency_stamp: "first".to_string() },
        InventoryUpdate {
            id,
            status: InventoryStatus::Available,
            concurrency_stamp: "first".to_string(),
        },
    ];
    let context = UpdateInventoriesContext {
        database: "db".to_string(),
        collecion: "Inventories".to_string(),
        inventory_updates: &updates,
    };
    let report = batch_update_inventory_status(&mut ledger, &context).unwrap();
    assert_eq!(report.matched, vec![true, false]);
    let stored = ledger.get(0).unwrap();
    assert_eq!(stored.status, InventoryStatus::Sold);
    assert_eq!(stored.reserved_until, 5);
    assert_eq!(stored.concurrency_stamp, report.stamps[0]);
}
