use digi_pass::baskets::application::{
    check_purchase, compute_basket_total_price, create_basketed_inventory, is_all_inventory_reserved,
    is_basket_expired, is_basket_valid, map_dto_basket_from_data_basket,
};
use digi_pass::baskets::data_models::{Basket, BasketItem, BasketedInventory};
use digi_pass::baskets::data_transfer_objects::{AddBasketItemRequest, PurchaseBasketRequest};
use digi_pass::baskets::errors::{BasketError, BasketErrors};
use digi_pass::events::data_transfer_objects::EventDetails;
use digi_pass::inventories::data_transfer_objects::{ReserveInventories, ReservedInventory};
use digi_pass::object_id::ObjectId;
use digi_pass::payments::data_transfer_objects::PaymentView;
use digi_pass::validation::ValidationError;

#[test]
fn application_test_generate_reserve_inventory_request() {
    let add_basket_item_requests = vec![
        AddBasketItemRequest { event_id: 1.to_string(), quantity: 2 },
        AddBasketItemRequest { event_id: 2.to_string(), quantity: 3 },
    ];
    let expected = vec![
        ReserveInventories { event_id: 1.to_string(), quantity: 2 },
        ReserveInventories { event_id: 2.to_string(), quantity: 3 },
    ];

    let actuals = digi_pass::baskets::application::generate_reserve_inventory_request(
        &add_basket_item_requests,
    );

    assert_eq!(&actuals[0].event_id, &expected[0].event_id);
    assert_eq!(&actuals[0].quantity, &expected[0].quantity);

    assert_eq!(&actuals[1].event_id, &expected[1].event_id);
    assert_eq!(&actuals[1].quantity, &expected[1].quantity);
}

#[test]
fn basket_manager_test_generate_reserve_inventory_request() {
    let add_basket_item_requests = vec![
        AddBasketItemRequest { event_id: 1.to_string(), quantity: 2 },
        AddBasketItemRequest { event_id: 2.to_string(), quantity: 3 },
    ];
    let expected = vec![
        ReserveInventories { event_id: 1.to_string(), quantity: 2 },
        ReserveInventories { event_id: 2.to_string(), quantity: 3 },
    ];

    let actuals = digi_pass::baskets::basket_manager::generate_reserve_inventory_request(
        &add_basket_item_requests,
    );

    assert_eq!(&actuals[0].event_id, &expected[0].event_id);
    assert_eq!(&actuals[0].quantity, &expected[0].quantity);

    assert_eq!(&actuals[1].event_id, &expected[1].event_id);
    assert_eq!(&actuals[1].quantity, &expected[1].quantity);
}

#[test]
fn generate_reserve_inventory_request_of_nothing_is_empty() {
    let actuals = digi_pass::baskets::application::generate_reserve_inventory_request(&[]);
    assert!(actuals.is_empty());
}

fn unit(reserved_until: i64) -> BasketedInventory {
    BasketedInventory::new(
        "65f0a1b2c3d4e5f60718293a".to_string(),
        "Concert".to_string(),
        "65f0a1b2c3d4e5f60718293b".to_string(),
        reserved_until,
    )
}

fn basket(valid_until: i64, prices_and_ends: &[(i32, i64)]) -> Basket {
    let mut basket = Basket::new(
        valid_until,
        prices_and_ends
            .iter()
            .map(|(price, end)| BasketItem { basketed_inventories: vec![unit(*end)], price: *price })
            .collect(),
    );
    basket.id = Some(ObjectId::from_bytes([7; 12]));
    basket
}

fn payment(status: &str, amount: i32) -> PaymentView {
    PaymentView {
        id: "65f0a1b2c3d4e5f60718293c".to_string(),
        concurrency_stamp: "s".to_string(),
        basket_id: "070707070707070707070707".to_string(),
        amount,
        currency: "PHP".to_string(),
        provider: "Maya".to_string(),
        status: status.to_string(),
        created_at: 1,
        payment_type: "checkout".to_string(),
    }
}

#[test]
fn basketed_inventory_takes_event_and_receipt() {
    let event = EventDetails {
        id: "65f0a1b2c3d4e5f60718293a".to_string(),
        name: "Concert".to_string(),
        price: 1500,
        start_sale_date_time: 1,
        end_sale_date_time: 2,
        start_date_time: 3,
        end_date_time: 4,
    };
    let receipt = ReservedInventory::new("65f0a1b2c3d4e5f60718293b".to_string(), 99);
    let basketed = create_basketed_inventory(&event, &receipt);
    assert_eq!(basketed.event_id, "65f0a1b2c3d4e5f60718293a");
    assert_eq!(basketed.name, "Concert");
    assert_eq!(basketed.inventory_id, "65f0a1b2c3d4e5f60718293b");
    assert_eq!(basketed.reserved_until, 99);
}

#[test]
fn basket_expires_strictly_after_valid_until() {
    let b = basket(1000, &[(10, 5000)]);
    assert!(!is_basket_expired(&b, 999));
    assert!(!is_basket_expired(&b, 1000));
    assert!(is_basket_expired(&b, 1001));
}

#[test]
fn basket_is_valid_only_while_neither_expiry_has_passed() {
    let b = basket(1000, &[(10, 500), (10, 2000)]);
    assert!(is_all_inventory_reserved(&b, 500));
    assert!(!is_all_inventory_reserved(&b, 501));
    assert!(is_basket_valid(&b, 500));
    assert!(!is_basket_valid(&b, 501));
    let c = basket(400, &[(10, 500)]);
    assert!(is_basket_valid(&c, 400));
    assert!(!is_basket_valid(&c, 401));
}

#[test]
fn basket_total_price_is_the_sum_of_item_prices() {
    assert_eq!(compute_basket_total_price(&basket(1, &[(1500, 1), (250, 1), (0, 1)])), Some(1750));
    assert_eq!(compute_basket_total_price(&basket(1, &[])), Some(0));
    assert_eq!(compute_basket_total_price(&basket(1, &[(i32::MAX, 1), (1, 1)])), None);
}

#[test]
fn purchase_needs_a_valid_and_paid_basket() {
    let b = basket(1000, &[(1500, 2000), (500, 2000)]);
    assert!(check_purchase(&b, &vec![payment("paid", 2000)], 1000).is_ok());
    assert!(check_purchase(&b, &vec![payment("paid", 1500), payment("paid", 500)], 1000).is_ok());
    assert!(matches!(
        check_purchase(&b, &vec![payment("paid", 1999)], 1000),
        Err(BasketErrors::BasketUnpaid)
    ));
    assert!(matches!(
        check_purchase(&b, &vec![payment("pending", 2000)], 1000),
        Err(BasketErrors::BasketUnpaid)
    ));
    assert!(matches!(
        check_purchase(&b, &vec![payment("paid", 2000)], 1001),
        Err(BasketErrors::BasketExpired)
    ));
    let lapsed = basket(3000, &[(1500, 2000)]);
    assert!(matches!(
        check_purchase(&lapsed, &vec![payment("paid", 1500)], 2001),
        Err(BasketErrors::BasketExpired)
    ));
}

#[test]
fn shown_basket_carries_price_and_payments() {
    let b = basket(1000, &[(1500, 2000), (500, 2000)]);
    let shown = map_dto_basket_from_data_basket(&b, vec![payment("paid", 2000)]).unwrap();
    assert_eq!(shown.id, "070707070707070707070707");
    assert_eq!(shown.original_order_id, None);
    assert_eq!(shown.valid_until, 1000);
    assert_eq!(shown.price, 2000);
    assert_eq!(shown.basket_items.len(), 2);
    assert_eq!(shown.basket_items[0].price, 1500);
    assert_eq!(shown.basket_items[1].basketed_inventories[0].inventory_id, "65f0a1b2c3d4e5f60718293b");
    assert_eq!(shown.payments.len(), 1);
    assert_eq!(shown.payments[0].amount, 2000);
    assert_eq!(shown.payments[0].status, "paid");
}

#[test]
fn shown_basket_needs_an_identifier() {
    let mut b = basket(1000, &[(1500, 2000)]);
    b.id = None;
    match map_dto_basket_from_data_basket(&b, vec![]) {
        Err(BasketErrors::Unknown(message)) => assert_eq!(message, "No basket id!"),
        _ => panic!("a basket without an identifier was shown"),
    }
}

#[test]
fn basket_errors_have_messages_and_statuses() {
    assert_eq!(BasketErrors::BasketNotFound.to_string(), "Basket not found.");
    assert_eq!(BasketErrors::BasketExpired.to_string(), "Basket is expired.");
    assert_eq!(BasketErrors::BasketUnpaid.to_string(), "Basket is unpaid.");
    assert_eq!(
        BasketError { error: BasketErrors::BasketUnpaid }.into_response(),
        (400, "Basket is unpaid.".to_string())
    );
    assert_eq!(
        BasketError { error: BasketErrors::Unknown("boom".to_string()) }.into_response(),
        (500, "boom".to_string())
    );
}

#[test]
fn basket_requests_are_validated() {
    assert!(AddBasketItemRequest { event_id: "e".to_string(), quantity: 1 }.validate().is_ok());
    let errors = AddBasketItemRequest { event_id: String::new(), quantity: 0 }
        .validate()
        .unwrap_err();
    assert_eq!(
        errors.errors,
        vec![ValidationError::EventIdEmpty, ValidationError::QuantityOutOfRange]
    );
    assert!(PurchaseBasketRequest { basket_id: "b".to_string() }.validate().is_ok());
    assert_eq!(
        PurchaseBasketRequest { basket_id: String::new() }.validate().unwrap_err().errors,
        vec![ValidationError::BasketIdEmpty]
    );
}
