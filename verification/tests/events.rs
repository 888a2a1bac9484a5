use chrono::{Duration, TimeZone, Utc};
use digi_pass::events::application::{map_event, EventService};
use digi_pass::events::data_transfer_objects::{validate_create_event, CreateEvent, EventDetails};
use digi_pass::events::event_repository::InMemoryEventRepository;
use digi_pass::validation::ValidationError;

/// The instant that the validation tests are pinned to.
fn get_current_time() -> i64 {
    Utc.with_ymd_and_hms(2010, 1, 1, 1, 1, 1).single().unwrap().timestamp_millis()
}

fn days(n: i64) -> i64 {
    Duration::days(n).num_milliseconds()
}

#[test]
fn application_test_map_event() {
    let now = Utc::now().timestamp_millis();
    let create_event_data = CreateEvent {
        name: "Test Event".to_string(),
        price: 0,
        start_sale_date_time: now,
        end_sale_date_time: now,
        start_date_time: now,
        end_date_time: now,
    };

    let event = map_event(create_event_data);

    assert_eq!(event.id, Option::None);
    assert_eq!(event.name, "Test Event".to_string());
    assert_eq!(event.start_sale_date_time, now);
    assert_eq!(event.end_sale_date_time, now);
    assert_eq!(event.start_date_time, now);
    assert_eq!(event.end_date_time, now);
}

#[test]
fn event_manager_test_map_event() {
    let now = Utc::now().timestamp_millis();
    let create_event_data = CreateEvent {
        name: "Test Event".to_string(),
        price: 0,
        start_sale_date_time: now,
        end_sale_date_time: now,
        start_date_time: now,
        end_date_time: now,
    };

    let event = map_event(create_event_data);

    assert_eq!(event.id, Option::None);
    assert_eq!(event.name, "Test Event".to_string());
    assert_eq!(event.start_sale_date_time, now);
    assert_eq!(event.end_sale_date_time, now);
    assert_eq!(event.start_date_time, now);
    assert_eq!(event.end_date_time, now);
}

#[test]
fn test_validation_fails_on_empty_name() {
    let create_event = CreateEvent {
        name: "".to_string(),
        price: 0,
        start_sale_date_time: get_current_time(),
        end_sale_date_time: get_current_time(),
        start_date_time: get_current_time(),
        end_date_time: get_current_time(),
    };

    assert!(create_event.validate_at(get_current_time()).is_err());
}

#[test]
fn test_validation_fails_on_start_sale_after_end_sale() {
    let create_event = CreateEvent {
        name: "Event".to_string(),
        price: 0,
        start_sale_date_time: get_current_time(),
        end_sale_date_time: get_current_time() - days(1),
        start_date_time: get_current_time(),
        end_date_time: get_current_time(),
    };

    assert!(create_event.validate_at(get_current_time()).is_err());
}

#[test]
fn test_validation_fails_on_start_before_start_sale() {
    let create_event = CreateEvent {
        name: "Event".to_string(),
        price: 0,
        start_sale_date_time: get_current_time() + days(1),
        end_sale_date_time: get_current_time() + days(2),
        start_date_time: get_current_time(),
        end_date_time: get_current_time(),
    };

    assert!(create_event.validate_at(get_current_time()).is_err());
}

#[test]
fn test_validation_fails_on_start_in_the_past() {
    let create_event = CreateEvent {
        name: "Event".to_string(),
        price: 0,
        start_sale_date_time: get_current_time() - days(1),
        end_sale_date_time: get_current_time(),
        start_date_time: get_current_time() - days(2),
        end_date_time: get_current_time(),
    };

    assert!(create_event.validate_at(get_current_time()).is_err());
}

#[test]
fn test_validation_passes_on_valid_create_event() {
    let create_event = CreateEvent {
        name: "Event".to_string(),
        price: 0,
        start_sale_date_time: get_current_time() - days(1),
        end_sale_date_time: get_current_time(),
        start_date_time: get_current_time() + days(1),
        end_date_time: get_current_time() + days(2),
    };

    assert!(create_event.validate_at(get_current_time()).is_ok());
}

fn event_at(start_sale: i64, end_sale: i64, start: i64, end: i64) -> CreateEvent {
    CreateEvent {
        name: "Event".to_string(),
        price: 10,
        start_sale_date_time: start_sale,
        end_sale_date_time: end_sale,
        start_date_time: start,
        end_date_time: end,
    }
}

#[test]
fn each_date_rule_is_reported_by_name() {
    let now = 1000;
    assert_eq!(
        validate_create_event(&event_at(1, 2, 2000, 1999), now),
        Err(ValidationError::StartAfterEnd)
    );
    assert_eq!(
        validate_create_event(&event_at(3, 2, 2000, 2001), now),
        Err(ValidationError::StartSaleAfterEndSale)
    );
    assert_eq!(
        validate_create_event(&event_at(2001, 2002, 2000, 2003), now),
        Err(ValidationError::StartSaleAfterStart)
    );
    assert_eq!(
        validate_create_event(&event_at(1, 2, 999, 2000), now),
        Err(ValidationError::StartInThePast)
    );
    assert_eq!(validate_create_event(&event_at(1, 2, 1000, 1000), now), Ok(()));
}

#[test]
fn field_rules_are_reported_before_date_rules() {
    let mut event = event_at(3, 2, 2000, 2001);
    event.name = String::new();
    event.price = -1;
    assert_eq!(
        event.validate_at(1000).unwrap_err().errors,
        vec![
            ValidationError::NameEmpty,
            ValidationError::PriceOutOfRange,
            ValidationError::StartSaleAfterEndSale
        ]
    );
}

#[test]
fn validation_against_the_clock_rejects_an_event_of_2010() {
    let event = event_at(get_current_time(), get_current_time(), get_current_time(), get_current_time());
    assert_eq!(event.validate().unwrap_err().errors, vec![ValidationError::StartInThePast]);
}

#[test]
fn event_service_stores_lists_and_finds_events() {
    let mut service = EventService::new(InMemoryEventRepository::new());
    let receipt = service.create_event(event_at(1, 2, 3, 4));
    assert_eq!(receipt.id.len(), 24);
    let listed = service.list();
    assert_eq!(listed.len(), 1);
    assert_eq!(listed[0].id, receipt.id);
    assert_eq!(listed[0].price, 10);
    let found = service.get_event(&receipt.id).unwrap().unwrap();
    assert_eq!(found.name, "Event");
    assert_eq!(found.start_date_time, 3);
    assert!(service.get_event("ffffffffffffffffffffffff").unwrap().is_none());
    assert!(service.get_event("not an id").is_err());
}

#[test]
fn event_details_of_an_unstored_event_have_an_empty_id() {
    let details = EventDetails::from(&map_event(event_at(1, 2, 3, 4)));
    assert_eq!(details.id, "");
    assert_eq!(details.end_date_time, 4);
}
