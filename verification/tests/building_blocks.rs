use digi_pass::baskets::application::{
    build_basket_items, check_reserved_in_full, open_basket, BASKET_VALIDITY_MILLIS,
};
use digi_pass::baskets::data_transfer_objects::{Basket, BasketItem, BasketedInventory};
use digi_pass::baskets::errors::BasketErrors;
use digi_pass::events::data_transfer_objects::EventDetails;
use digi_pass::inventories::data_transfer_objects::ReservedInventory;
use digi_pass::object_id::ObjectId;
use digi_pass::orders::application::order_for_purchase;
use digi_pass::passes::application::first_verification;
use digi_pass::passes::data_models::PassVerification;
use digi_pass::payments::application::{checkout_payment, mark_paid};
use digi_pass::payments::data_models::{CheckoutData, Payment};
use digi_pass::payments::errors::PaymentErrors;
use digi_pass::payments::webhook_handlers::reports_payment_success;

const EVENT: &str = "65f0a1b2c3d4e5f60718293a";
const UNIT: &str = "65f0a1b2c3d4e5f60718293b";
const OTHER_UNIT: &str = "65f0a1b2c3d4e5f60718293c";
const BASKET: &str = "65f0a1b2c3d4e5f60718293d";

fn concert() -> EventDetails {
    EventDetails {
        id: EVENT.to_string(),
        name: "Concert".to_string(),
        price: 1500,
        start_sale_date_time: 1,
        end_sale_date_time: 2,
        start_date_time: 3,
        end_date_time: 4,
    }
}

fn receipt(unit: &str, until: i64) -> ReservedInventory {
    ReservedInventory { inventory_id: unit.to_string(), reserved_until: until }
}

fn shown_basket(original_order_id: Option<String>) -> Basket {
    Basket {
        id: BASKET.to_string(),
        original_order_id,
        valid_until: 9_000,
        basket_items: vec![BasketItem {
            basketed_inventories: vec![BasketedInventory {
                event_id: EVENT.to_string(),
                name: "Concert".to_string(),
                inventory_id: UNIT.to_string(),
                reserved_until: 8_000,
            }],
            price: 1500,
        }],
        payments: vec![],
        price: 1500,
    }
}

#[test]
fn there_is_one_basket_item_for_each_receipt_in_order() {
    let receipts = vec![receipt(UNIT, 7_000), receipt(OTHER_UNIT, 7_500)];
    let items = build_basket_items(&concert(), &receipts);

    assert_eq!(items.len(), 2);
    assert_eq!(items[0].price, 1500);
    assert_eq!(items[0].basketed_inventories.len(), 1);
    assert_eq!(items[0].basketed_inventories[0].event_id, EVENT);
    assert_eq!(items[0].basketed_inventories[0].name, "Concert");
    assert_eq!(items[0].basketed_inventories[0].inventory_id, UNIT);
    assert_eq!(items[0].basketed_inventories[0].reserved_until, 7_000);
    assert_eq!(items[1].basketed_inventories[0].inventory_id, OTHER_UNIT);
    assert_eq!(items[1].basketed_inventories[0].reserved_until, 7_500);
    assert!(build_basket_items(&concert(), &[]).is_empty());
}

#[test]
fn a_reservation_that_is_short_of_the_request_is_reported_with_its_count() {
    let receipts = vec![receipt(UNIT, 7_000), receipt(OTHER_UNIT, 7_500)];
    assert!(check_reserved_in_full(&receipts, 2).is_ok());
    assert!(check_reserved_in_full(&[], 0).is_ok());
    match check_reserved_in_full(&receipts, 3) {
        Err(BasketErrors::Unknown(message)) => assert_eq!(message, "Not enough inventories: 2"),
        other => panic!("unexpected outcome: {:?}", other),
    }
    match check_reserved_in_full(&[], -1) {
        Err(BasketErrors::Unknown(message)) => assert_eq!(message, "Not enough inventories: 0"),
        other => panic!("unexpected outcome: {:?}", other),
    }
}

#[test]
fn a_basket_is_opened_for_half_an_hour_without_an_identifier() {
    let items = build_basket_items(&concert(), &[receipt(UNIT, 7_000)]);
    let basket = open_basket(items, 1_000);
    assert!(basket.id.is_none());
    assert_eq!(basket.valid_until, 1_000 + BASKET_VALIDITY_MILLIS);
    assert_eq!(basket.valid_until, 1_801_000);
    assert_eq!(basket.basket_items.len(), 1);
}

#[test]
fn a_purchase_is_recorded_under_the_order_that_the_basket_continues() {
    let order_id = ObjectId::from_bytes([1; 12]);
    let transaction_id = ObjectId::from_bytes([2; 12]);
    let earlier_order = ObjectId::from_bytes([3; 12]);

    let fresh = order_for_purchase(&shown_basket(None), order_id, transaction_id, 5_000).unwrap();
    assert_eq!(fresh.order_id, order_id);
    assert_eq!(fresh.id, transaction_id);
    assert_eq!(fresh.created_at, 5_000);
    assert_eq!(fresh.items.len(), 1);
    assert_eq!(fresh.items[0].id, format!("{}-1", transaction_id.to_hex()));

    let continued = order_for_purchase(
        &shown_basket(Some(earlier_order.to_hex())),
        order_id,
        transaction_id,
        5_000,
    )
    .unwrap();
    assert_eq!(continued.order_id, earlier_order);

    let broken =
        order_for_purchase(&shown_basket(Some("none".to_string())), order_id, transaction_id, 5_000);
    assert_eq!(broken.unwrap_err().to_string(), "Invalid Original Order Id");
}

#[test]
fn a_checkout_payment_is_pending_for_the_price_of_the_basket() {
    let data = CheckoutData::new("checkout-1".to_string(), "https://pay.example/1".to_string());
    let payment =
        checkout_payment(&shown_basket(None), "Maya".to_string(), data.clone(), 5_000).unwrap();
    assert!(payment.id.is_none());
    assert_eq!(payment.basket_id, Some(ObjectId::parse_str(BASKET).unwrap()));
    assert_eq!(payment.amount, 1500);
    assert_eq!(payment.currency, "PHP");
    assert_eq!(payment.provider, "Maya");
    assert_eq!(payment.status, "pending");
    assert_eq!(payment.payment_type, "checkout");
    assert_eq!(payment.created_at, 5_000);
    assert_eq!(payment.checkout_data.unwrap().checkout_id, "checkout-1");

    let mut nameless = shown_basket(None);
    nameless.id = "basket".to_string();
    assert_eq!(
        checkout_payment(&nameless, "Maya".to_string(), data, 5_000).unwrap_err(),
        PaymentErrors::MalformedId
    );
}

#[test]
fn marking_a_payment_as_paid_changes_its_status_alone() {
    let mut payment = Payment::new(
        Some(ObjectId::parse_str(BASKET).unwrap()),
        1500,
        "PHP".to_string(),
        "Maya".to_string(),
        "pending".to_string(),
        5_000,
        "checkout".to_string(),
        None,
    );
    let stamp = payment.concurrency_stamp.clone();
    mark_paid(&mut payment);
    assert_eq!(payment.status, "paid");
    assert_eq!(payment.concurrency_stamp, stamp);
    assert_eq!(payment.amount, 1500);
    assert_eq!(payment.created_at, 5_000);
    assert!(payment.id.is_none());
}

#[test]
fn only_a_successful_payment_is_reported_as_one() {
    assert!(reports_payment_success("PAYMENT_SUCCESS"));
    assert!(!reports_payment_success("PAYMENT_FAILED"));
    assert!(!reports_payment_success("payment_success"));
    assert!(!reports_payment_success(""));
}

#[test]
fn a_unit_is_verified_at_most_once() {
    let unit = ObjectId::parse_str(UNIT).unwrap();
    let first = first_verification(&None, unit, 6_000).unwrap();
    assert_eq!(first.inventory_id, unit);
    assert_eq!(first.verification_time, 6_000);
    let earlier = PassVerification { inventory_id: unit, verification_time: 5_000 };
    assert!(first_verification(&Some(earlier), unit, 6_000).is_none());
}
