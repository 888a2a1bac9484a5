use digi_pass::baskets::application::BasketService;
use digi_pass::baskets::basket_repository::InMemoryBasketRepository;
use digi_pass::baskets::data_transfer_objects::{
    AddBasketItemRequest, Basket, BasketItem, BasketPayment, BasketedInventory,
    CreateBasketRequest,
};
use digi_pass::baskets::errors::BasketErrors;
use digi_pass::events::application::EventService;
use digi_pass::events::data_transfer_objects::CreateEvent;
use digi_pass::events::event_repository::InMemoryEventRepository;
use digi_pass::inventories::application::InventoryService;
use digi_pass::inventories::constants::RESERVATION_WINDOW_MILLIS;
use digi_pass::inventories::data_models::InventoryStatus;
use digi_pass::inventories::data_transfer_objects::CreateInventoryBatch;
use digi_pass::inventories::inventory_repository::InMemoryInventoryRepository;
use digi_pass::inventory_keeper::application::InventoryKeeperService;
use digi_pass::inventory_keeper::persistence::{InventoryRepository, OrderTransactionRepository};
use digi_pass::ledger::Ledger;
use digi_pass::object_id::ObjectId;
use digi_pass::orders::application::{build_order_transaction, OrderService};
use digi_pass::orders::errors::{OrderError, OrderErrors};
use digi_pass::orders::persistence::InMemoryOrderTransactionRepository;
use digi_pass::passes::application::{assemble_pass, order_transaction_id_of, PassService};
use digi_pass::passes::data_models::Pass;
use digi_pass::passes::data_transfer_objects::{JwtPass, VerificationResult};
use digi_pass::passes::errors::{PassError, PassErrors};
use digi_pass::passes::persistence::InMemoryPassVerificationRepository;
use digi_pass::payments::application::{map_payment_to_payment_view, PaymentService};
use digi_pass::payments::data_models::{CheckoutData, Payment};
use digi_pass::payments::data_transfer_objects::maya_webhook::{
    Buyer, Card, Contact, Details, Efs, EfsAmount, FundingInstrument, IngAddress,
    MayaWebhookRequest, Merchant, Payer, PaymentDetails, Receipt, RedirectUrl, Responses, Total,
    TotalAmount,
};
use digi_pass::payments::data_transfer_objects::{CheckoutRequest, CheckoutResponse};
use digi_pass::payments::errors::PaymentErrors;
use digi_pass::payments::payment_providers::maya_provider::MayaProvider;
use digi_pass::payments::payment_providers::pay_mongo_provider::data_transfer_objects::checkout::request::LineItem;
use digi_pass::payments::payment_providers::pay_mongo_provider::data_transfer_objects::checkout::response::{
    Attributes, CheckoutData as ProviderCheckoutData, CheckoutResult,
};
use digi_pass::payments::payment_providers::pay_mongo_provider::{
    basekt_item_to_line_item, checkout_data_of, PayMongoProvider,
};
use digi_pass::payments::persistence::InMemoryPaymentRepository;
use digi_pass::payments::webhook_handlers::handle_maya_checkout_webhook;
use digi_pass::validation::ValidationError;

fn shown_unit(inventory: &str) -> BasketedInventory {
    BasketedInventory {
        event_id: "65f0a1b2c3d4e5f60718293a".to_string(),
        name: "Concert".to_string(),
        inventory_id: inventory.to_string(),
        reserved_until: 10,
    }
}

fn shown_payment(id: &str) -> BasketPayment {
    BasketPayment {
        id: id.to_string(),
        amount: 2000,
        currency: "PHP".to_string(),
        provider: "Maya".to_string(),
        status: "paid".to_string(),
        created_at: 3,
        payment_type: "checkout".to_string(),
    }
}

fn shown_basket() -> Basket {
    Basket {
        id: "0a0a0a0a0a0a0a0a0a0a0a0a".to_string(),
        original_order_id: None,
        valid_until: 100,
        basket_items: vec![
            BasketItem {
                basketed_inventories: vec![
                    shown_unit("111111111111111111111111"),
                    shown_unit("222222222222222222222222"),
                ],
                price: 1500,
            },
            BasketItem {
                basketed_inventories: vec![shown_unit("333333333333333333333333")],
                price: 500,
            },
        ],
        payments: vec![shown_payment("444444444444444444444444")],
        price: 2000,
    }
}

#[test]
fn an_order_numbers_its_lines_after_the_transaction() {
    let order_id = ObjectId::from_bytes([1; 12]);
    let transaction = ObjectId::from_bytes([0xab; 12]);
    let order = build_order_transaction(&shown_basket(), order_id, transaction, 77).unwrap();
    assert_eq!(order.id, transaction);
    assert_eq!(order.order_id, order_id);
    assert_eq!(order.transaction_type, "sale");
    assert_eq!(order.basket_id, Some("0a0a0a0a0a0a0a0a0a0a0a0a".to_string()));
    assert_eq!(order.created_at, 77);
    assert_eq!(order.items.len(), 2);
    assert_eq!(order.items[0].id, "abababababababababababab-1");
    assert_eq!(order.items[1].id, "abababababababababababab-2");
    assert_eq!(order.items[0].price, 1500);
    assert_eq!(order.items[0].inventories[0].id, "abababababababababababab-1-1");
    assert_eq!(order.items[0].inventories[1].id, "abababababababababababab-1-2");
    assert_eq!(order.items[1].inventories[0].id, "abababababababababababab-2-1");
    assert_eq!(order.items[0].inventories[1].inventory_id, ObjectId::from_bytes([0x22; 12]));
    assert_eq!(order.items[1].inventories[0].name, "Concert");
    assert_eq!(order.payments.len(), 1);
    assert_eq!(order.payments[0].id, "abababababababababababab-3");
    assert_eq!(order.payments[0].payment_id, ObjectId::from_bytes([0x44; 12]));
    assert_eq!(order.payments[0].amount, 2000);
}

#[test]
fn an_order_needs_well_formed_identifiers() {
    let order_id = ObjectId::from_bytes([1; 12]);
    let transaction = ObjectId::from_bytes([2; 12]);
    let mut basket = shown_basket();
    basket.basket_items[1].basketed_inventories[0].inventory_id = "zz".to_string();
    match build_order_transaction(&basket, order_id, transaction, 1) {
        Err(OrderErrors::Unknown(message)) => assert_eq!(message, "Malformed identifier"),
        Ok(_) => panic!("an order was built from a malformed identifier"),
    }
    let mut basket = shown_basket();
    basket.payments[0].id = String::new();
    assert!(build_order_transaction(&basket, order_id, transaction, 1).is_err());
    let mut basket = shown_basket();
    basket.original_order_id = Some("not an order".to_string());
    let mut service = OrderService::new(InMemoryOrderTransactionRepository::new());
    match service.create_order(basket) {
        Err(OrderErrors::Unknown(message)) => assert_eq!(message, "Invalid Original Order Id"),
        Ok(_) => panic!("an order continued an order that cannot be named"),
    }
    assert!(service.order_transaction_repository.transactions.is_empty());
    assert_eq!(
        OrderError { error: OrderErrors::Unknown("x".to_string()) }.into_response(),
        (500, "x".to_string())
    );
}

#[test]
fn a_stored_order_is_shown_with_text_identifiers() {
    let mut service = OrderService::new(InMemoryOrderTransactionRepository::new());
    let mut basket = shown_basket();
    basket.original_order_id = Some("0C0c0c0c0c0c0c0c0c0c0c0c".to_string());
    let order_id = service.create_order(basket).unwrap();
    assert_eq!(order_id, "0c0c0c0c0c0c0c0c0c0c0c0c");
    let stored = &service.order_transaction_repository.transactions[0];
    let shown = service.get_order_transactions(stored.id.to_hex()).unwrap();
    assert_eq!(shown.id, stored.id.to_hex());
    assert_eq!(shown.order_id, order_id);
    assert_eq!(shown.transaction_type, "sale");
    assert_eq!(shown.items.len(), 2);
    assert_eq!(shown.items[0].inventories[1].inventory_id, "222222222222222222222222");
    assert_eq!(shown.items[0].inventories[1].event_id, "65f0a1b2c3d4e5f60718293a");
    assert_eq!(shown.payments[0].payment_id, "444444444444444444444444");
    assert!(service.get_order_transactions("0".to_string()).is_none());
    assert!(service.get_order_transactions("0d0d0d0d0d0d0d0d0d0d0d0d".to_string()).is_none());
}

#[test]
fn pass_claims_come_from_the_order_line() {
    let mut service = OrderService::new(InMemoryOrderTransactionRepository::new());
    service.create_order(shown_basket()).unwrap();
    let transaction = service.order_transaction_repository.transactions[0].id.to_hex();
    let line = format!("{}-1-2", transaction);
    assert_eq!(order_transaction_id_of(&line), transaction);
    assert_eq!(order_transaction_id_of("plain"), "plain");
    assert_eq!(order_transaction_id_of("-x"), "");
    assert_eq!(order_transaction_id_of(""), "");

    let passes = PassService::new(InMemoryPassVerificationRepository::new());
    let pass = passes.get_pass(&service, line.clone(), 1_700_000_000).unwrap();
    assert_eq!(pass.sub, line);
    assert_eq!(pass.iat, 1_700_000_000);
    assert_eq!(pass.exp, 1_700_003_600);
    assert_eq!(pass.nbf, 0);
    assert_eq!(pass.inventory_id, "222222222222222222222222");
    assert_eq!(pass.event_id, "65f0a1b2c3d4e5f60718293a");
    assert_eq!(pass.event_name, "Concert");
    assert!(passes.get_pass(&service, format!("{}-9-9", transaction), 1).is_none());
    assert!(passes.get_pass(&service, "nothing-1-1".to_string(), 1).is_none());

    let shown = service.get_order_transactions(transaction).unwrap();
    assert!(assemble_pass("missing", &shown, 1).is_none());
}

fn claims(inventory: &str) -> Pass {
    Pass {
        sub: "t-1-1".to_string(),
        exp: 2,
        iat: 1,
        nbf: 0,
        inventory_id: inventory.to_string(),
        event_id: "65f0a1b2c3d4e5f60718293a".to_string(),
        event_name: "Concert".to_string(),
    }
}

#[test]
fn a_pass_is_accepted_once() {
    let mut passes = PassService::new(InMemoryPassVerificationRepository::new());
    assert_eq!(passes.verify_pass(&claims("111111111111111111111111"), 5).unwrap(), true);
    assert_eq!(passes.verify_pass(&claims("111111111111111111111111"), 6).unwrap(), false);
    assert_eq!(passes.verify_pass(&claims("222222222222222222222222"), 7).unwrap(), true);
    assert_eq!(passes.pass_verification_repository.verifications.len(), 2);
    assert_eq!(passes.pass_verification_repository.verifications[0].verification_time, 5);
    match passes.verify_pass(&claims("nope"), 8) {
        Err(PassErrors::Unknown(message)) => assert_eq!(message, "Malformed identifier"),
        Ok(_) => panic!("a pass for no unit was judged"),
    }
    assert_eq!(
        PassError { error: PassErrors::Unknown("x".to_string()) }.into_response(),
        (500, "x".to_string())
    );
}

#[test]
fn the_latest_verification_is_the_last() {
    let mut repository = InMemoryPassVerificationRepository::new();
    let unit = ObjectId::from_bytes([1; 12]);
    for time in [5, 9, 7] {
        repository.save_pass_verification(&digi_pass::passes::data_models::PassVerification {
            inventory_id: unit,
            verification_time: time,
        });
    }
    assert_eq!(repository.get_last_pass_verification(unit).unwrap().verification_time, 9);
    assert!(repository.get_last_pass_verification(ObjectId::from_bytes([2; 12])).is_none());
}

#[test]
fn pass_requests_and_replies_are_built() {
    assert_eq!(JwtPass::new("a.b.c".to_string()).jwt, "a.b.c");
    assert!(JwtPass::new("a.b.c".to_string()).validate().is_ok());
    assert_eq!(
        JwtPass::new(String::new()).validate().unwrap_err().errors,
        vec![ValidationError::JwtEmpty]
    );
    assert!(VerificationResult::new(true).valid);
    assert!(!VerificationResult::new(false).valid);
}

fn checkout(id: &str) -> CheckoutData {
    CheckoutData::new(id.to_string(), format!("https://pay.example/{}", id))
}

#[test]
fn a_checkout_is_recorded_as_a_pending_payment() {
    let mut payments = PaymentService::new(InMemoryPaymentRepository::new());
    let response =
        payments.record_checkout(&shown_basket(), "Maya".to_string(), checkout("c1"), 42).unwrap();
    assert_eq!(response.checkout_id, "c1");
    assert_eq!(response.checkout_url, "https://pay.example/c1");
    let stored = &payments.payment_repository.payments[0];
    assert!(stored.id.is_some());
    assert_eq!(stored.basket_id, Some(ObjectId::from_bytes([0x0a; 12])));
    assert_eq!(stored.amount, 2000);
    assert_eq!(stored.currency, "PHP");
    assert_eq!(stored.provider, "Maya");
    assert_eq!(stored.status, "pending");
    assert_eq!(stored.payment_type, "checkout");
    assert_eq!(stored.created_at, 42);
    assert_eq!(stored.concurrency_stamp.len(), 24);

    let mut unnamed = shown_basket();
    unnamed.id = "b".to_string();
    assert_eq!(
        payments.record_checkout(&unnamed, "Maya".to_string(), checkout("c2"), 42).unwrap_err(),
        PaymentErrors::MalformedId
    );
    assert_eq!(payments.payment_repository.payments.len(), 1);
}

#[test]
fn a_payment_is_marked_as_paid_under_a_new_stamp() {
    let mut payments = PaymentService::new(InMemoryPaymentRepository::new());
    payments.record_checkout(&shown_basket(), "Maya".to_string(), checkout("c1"), 42).unwrap();
    payments.record_checkout(&shown_basket(), "Maya".to_string(), checkout("c2"), 43).unwrap();
    let before = payments.payment_repository.payments[1].concurrency_stamp.clone();
    payments.mark_payment_as_paid("c2").unwrap();
    assert_eq!(payments.payment_repository.payments[0].status, "pending");
    assert_eq!(payments.payment_repository.payments[1].status, "paid");
    assert_ne!(payments.payment_repository.payments[1].concurrency_stamp, before);
    assert_eq!(
        payments.mark_payment_as_paid("c3").unwrap_err(),
        PaymentErrors::PaymentNotFound
    );
    let shown = payments.get_basket_payments("0a0a0a0a0a0a0a0a0a0a0a0a").unwrap();
    assert_eq!(shown.len(), 2);
    assert_eq!(shown[1].status, "paid");
    assert_eq!(shown[1].basket_id, "0a0a0a0a0a0a0a0a0a0a0a0a");
    assert!(payments.get_basket_payments("0b0b0b0b0b0b0b0b0b0b0b0b").unwrap().is_empty());
    assert_eq!(payments.get_basket_payments("b").unwrap_err(), PaymentErrors::MalformedId);
}

#[test]
fn an_update_under_a_stale_stamp_is_refused() {
    let mut repository = InMemoryPaymentRepository::new();
    let payment = Payment::new(
        Some(ObjectId::from_bytes([1; 12])),
        10,
        "PHP".to_string(),
        "Maya".to_string(),
        "pending".to_string(),
        1,
        "checkout".to_string(),
        None,
    );
    repository.save(&payment);
    let mut first = repository.payments[0].clone();
    let mut second = repository.payments[0].clone();
    first.status = "paid".to_string();
    repository.update(&mut first).unwrap();
    second.status = "void".to_string();
    assert_eq!(repository.update(&mut second).unwrap_err(), PaymentErrors::UpdateFailed);
    assert_eq!(repository.payments[0].status, "paid");
    let mut unsaved = payment;
    assert_eq!(repository.update(&mut unsaved).unwrap_err(), PaymentErrors::MissingId);
    assert_eq!(
        map_payment_to_payment_view(&unsaved).unwrap_err(),
        PaymentErrors::MissingId
    );
    let shown = map_payment_to_payment_view(&repository.payments[0]).unwrap();
    assert_eq!(shown.amount, 10);
    assert_eq!(shown.basket_id, "010101010101010101010101");
}

fn webhook(id: &str, status: &str) -> MayaWebhookRequest {
    let address = || IngAddress {
        line1: String::new(),
        line2: String::new(),
        city: String::new(),
        state: String::new(),
        zip_code: String::new(),
        country_code: "PH".to_string(),
    };
    MayaWebhookRequest {
        id: id.to_string(),
        items: vec![],
        request_reference_number: "r".to_string(),
        receipt_number: "n".to_string(),
        created_at: "c".to_string(),
        updated_at: "u".to_string(),
        payment_scheme: "visa".to_string(),
        express_checkout: false,
        refunded_amount: "0".to_string(),
        can_pay_pal: false,
        expired_at: "e".to_string(),
        status: status.to_string(),
        payment_status: status.to_string(),
        payment_details: PaymentDetails {
            responses: Responses {
                efs: Efs {
                    payment_transaction_reference_no: "p".to_string(),
                    status: "SUCCESS".to_string(),
                    receipt: Receipt {
                        transaction_id: "t".to_string(),
                        receipt_no: "1".to_string(),
                        receipt_approval_code: "a".to_string(),
                        approval_code: "a".to_string(),
                    },
                    payer: Payer {
                        funding_instrument: FundingInstrument {
                            card: Card {
                                card_number: "4123".to_string(),
                                expiry_month: 12,
                                expiry_year: "2030".to_string(),
                            },
                        },
                    },
                    amount: EfsAmount { total: Total { currency: "PHP".to_string(), value: 2000 } },
                    created_at: "c".to_string(),
                },
            },
            payment_at: "p".to_string(),
            the_3_ds: true,
        },
        buyer: Buyer {
            contact: Contact { phone: "1".to_string(), email: "b@example.com".to_string() },
            first_name: "B".to_string(),
            last_name: "U".to_string(),
            billing_address: address(),
            shipping_address: address(),
        },
        merchant: Merchant {
            currency: "PHP".to_string(),
            email: "m@example.com".to_string(),
            locale: "en".to_string(),
            homepage_url: "https://m.example".to_string(),
            is_email_to_merchant_enabled: false,
            is_email_to_buyer_enabled: false,
            is_payment_facilitator: false,
            is_page_customized: false,
            supported_schemes: vec![],
            can_pay_pal: false,
            pay_pal_email: None,
            pay_pal_web_experience_id: None,
            express_checkout: false,
            name: "M".to_string(),
        },
        total_amount: TotalAmount {
            value: "20.00".to_string(),
            currency: "PHP".to_string(),
            details: Details {
                discount: "0".to_string(),
                service_charge: "0".to_string(),
                shipping_fee: "0".to_string(),
                tax: "0".to_string(),
                subtotal: "20.00".to_string(),
            },
        },
        redirect_url: RedirectUrl {
            success: "s".to_string(),
            failure: "f".to_string(),
            cancel: "c".to_string(),
        },
        transaction_reference_number: "x".to_string(),
    }
}

#[test]
fn only_a_successful_payment_marks_the_payment_as_paid() {
    let mut payments = PaymentService::new(InMemoryPaymentRepository::new());
    payments.record_checkout(&shown_basket(), "Maya".to_string(), checkout("c1"), 42).unwrap();
    handle_maya_checkout_webhook(webhook("c1", "PAYMENT_FAILED"), &mut payments).unwrap();
    assert_eq!(payments.payment_repository.payments[0].status, "pending");
    handle_maya_checkout_webhook(webhook("c1", "PAYMENT_SUCCESS"), &mut payments).unwrap();
    assert_eq!(payments.payment_repository.payments[0].status, "paid");
    assert_eq!(
        handle_maya_checkout_webhook(webhook("c9", "PAYMENT_SUCCESS"), &mut payments),
        Err(PaymentErrors::PaymentNotFound)
    );
    assert!(handle_maya_checkout_webhook(webhook("c9", "PAYMENT_EXPIRED"), &mut payments).is_ok());
}

#[test]
fn providers_name_themselves_and_their_checkout_address() {
    let maya = MayaProvider::new("https://maya.example".to_string(), "c2VjcmV0".to_string(), vec![]);
    assert_eq!(maya.get_name(), "Maya");
    assert_eq!(maya.checkout_sessions_url(), "https://maya.example/v1/checkout_sessions");
    assert_eq!(maya.authorization(), "Basic c2VjcmV0");
    let pay_mongo = PayMongoProvider::new(
        "https://paymongo.example".to_string(),
        "c2VjcmV0".to_string(),
        vec!["card".to_string(), "gcash".to_string()],
    );
    assert_eq!(pay_mongo.get_name(), "PayMongo");
    assert_eq!(pay_mongo.checkout_sessions_url(), "https://paymongo.example/v1/checkout_sessions");
    assert_eq!(pay_mongo.authorization(), "Basic c2VjcmV0");

    let mut basket = shown_basket();
    basket.basket_items.insert(1, BasketItem { basketed_inventories: vec![], price: 9 });
    let request = pay_mongo.checkout_request(&basket);
    let attributes = &request.data.attributes;
    assert_eq!(attributes.payment_method_types, vec!["card".to_string(), "gcash".to_string()]);
    assert_eq!(attributes.description, "Pass");
    assert!(attributes.show_line_items);
    assert!(!attributes.show_description);
    assert!(!attributes.send_email_receipt);
    assert_eq!(attributes.line_items.len(), 2);
    assert_eq!(attributes.line_items[0].amount, 1500);
    assert_eq!(attributes.line_items[0].quantity, 2);
    assert_eq!(attributes.line_items[0].currency, "PHP");
    assert_eq!(attributes.line_items[0].name, "Concert");
    assert_eq!(attributes.line_items[1].quantity, 1);
    assert!(basekt_item_to_line_item(&BasketItem { basketed_inventories: vec![], price: 1 }).is_none());
    let line = LineItem::new("PHP", 5, "n", 2, "d");
    assert_eq!(line.currency, "PHP");
    assert_eq!(line.amount, 5);
    assert_eq!(line.name, "n");
    assert_eq!(line.quantity, 2);
    assert_eq!(line.description, "d");
}

#[test]
fn checkout_requests_and_replies_are_built() {
    assert!(CheckoutRequest { basket_id: "b".to_string() }.validate().is_ok());
    assert_eq!(
        CheckoutRequest { basket_id: String::new() }.validate().unwrap_err().errors,
        vec![ValidationError::BasketIdEmpty]
    );
    let response = CheckoutResponse::new("id".to_string(), "url".to_string());
    assert_eq!(response.checkout_id, "id");
    assert_eq!(response.checkout_url, "url");
    let data = CheckoutData::new("id".to_string(), "url".to_string());
    assert_eq!(data.checkout_id, "id");
    assert_eq!(data.checkout_url, "url");
}

fn basket_service(units: i32, price: i32) -> (BasketService, String) {
    let mut events = EventService::new(InMemoryEventRepository::new());
    let event = events
        .create_event(CreateEvent {
            name: "Concert".to_string(),
            price,
            start_sale_date_time: 1,
            end_sale_date_time: 2,
            start_date_time: 3,
            end_date_time: 4,
        })
        .id;
    let mut inventory = InventoryService::new(InMemoryInventoryRepository::new(Ledger::new()));
    inventory
        .add_batch(&CreateInventoryBatch {
            event_id: event.clone(),
            quantity: units,
            generate_inventory_id: None,
        })
        .unwrap();
    (BasketService::new(inventory, events, InMemoryBasketRepository::new()), event)
}

fn request(event: &str, quantity: i32) -> CreateBasketRequest {
    CreateBasketRequest {
        add_basket_item_request: vec![AddBasketItemRequest { event_id: event.to_string(), quantity }],
    }
}

#[test]
fn a_basket_reserves_its_units_and_is_valid_for_half_an_hour() {
    let now = 1_000_000;
    let (mut baskets, event) = basket_service(3, 1500);
    let created = baskets.create_basket_at(&request(&event, 2), now).unwrap();
    let stored = &baskets.basket_repository.baskets[0];
    assert_eq!(stored.id.unwrap().to_hex(), created.basket_id);
    assert_eq!(stored.valid_until, now + 30 * 60 * 1000);
    assert_eq!(stored.basket_items.len(), 2);
    for item in stored.basket_items.iter() {
        assert_eq!(item.price, 1500);
        assert_eq!(item.basketed_inventories.len(), 1);
        assert_eq!(item.basketed_inventories[0].event_id, event);
        assert_eq!(item.basketed_inventories[0].name, "Concert");
        assert_eq!(item.basketed_inventories[0].reserved_until, now + RESERVATION_WINDOW_MILLIS);
    }
    let shown = baskets.get_valid_basket_at(&created.basket_id, now).unwrap().unwrap();
    assert_eq!(shown.price, 3000);
    assert!(baskets
        .get_valid_basket_at(&created.basket_id, now + 30 * 60 * 1000 + 1)
        .unwrap()
        .is_none());
    assert!(baskets.get_valid_basket_at("0e0e0e0e0e0e0e0e0e0e0e0e", now).unwrap().is_none());
    assert!(baskets.get_valid_basket_at("e", now).is_err());
}

#[test]
fn a_basket_is_not_created_without_enough_units_or_without_its_event() {
    let (mut baskets, event) = basket_service(1, 1500);
    match baskets.create_basket_at(&request(&event, 2), 1) {
        Err(BasketErrors::Unknown(message)) => assert_eq!(message, "Not enough inventories: 1"),
        _ => panic!("a basket was created without its units"),
    }
    match baskets.create_basket_at(&request("0f0f0f0f0f0f0f0f0f0f0f0f", 1), 1) {
        Err(BasketErrors::Unknown(message)) => assert_eq!(message, "Event not found"),
        _ => panic!("a basket was created for no event"),
    }
    assert!(baskets.create_basket_at(&request("f", 1), 1).is_err());
    assert!(baskets.basket_repository.baskets.is_empty());
    let empty = CreateBasketRequest { add_basket_item_request: vec![] };
    assert!(empty.validate().is_ok());
    assert!(baskets.create_basket(&empty).is_ok());
}

#[test]
fn a_paid_basket_becomes_an_order_and_its_units_are_sold_by_the_sweep() {
    let now = 1_000_000;
    let (mut baskets, event) = basket_service(3, 1500);
    let created = baskets.create_basket_at(&request(&event, 2), now).unwrap();
    let mut payments = PaymentService::new(InMemoryPaymentRepository::new());
    let mut orders = OrderService::new(InMemoryOrderTransactionRepository::new());

    assert!(matches!(
        baskets.purchase_basket_at(&payments, &mut orders, &created.basket_id, now),
        Err(BasketErrors::BasketUnpaid)
    ));
    let shown = baskets.get_valid_basket_at(&created.basket_id, now).unwrap().unwrap();
    payments.record_checkout(&shown, "Maya".to_string(), checkout("c1"), now).unwrap();
    assert!(matches!(
        baskets.purchase_basket_at(&payments, &mut orders, &created.basket_id, now),
        Err(BasketErrors::BasketUnpaid)
    ));
    payments.mark_payment_as_paid("c1").unwrap();
    assert!(matches!(
        baskets.purchase_basket_at(&payments, &mut orders, "0e0e0e0e0e0e0e0e0e0e0e0e", now),
        Err(BasketErrors::BasketNotFound)
    ));
    assert!(matches!(
        baskets.purchase_basket_at(&payments, &mut orders, &created.basket_id, now + 1_800_001),
        Err(BasketErrors::BasketExpired)
    ));
    let order_id =
        baskets.purchase_basket_at(&payments, &mut orders, &created.basket_id, now).unwrap();
    let stored = &orders.order_transaction_repository.transactions[0];
    assert_eq!(stored.order_id.to_hex(), order_id);
    assert_eq!(stored.basket_id, Some(created.basket_id.clone()));
    assert_eq!(stored.items.len(), 2);

    // the units stay reserved until the sweep finds the order
    let ledger = baskets.inventory_service.inventory_repository.ledger;
    assert_eq!(ledger.get(0).unwrap().status, InventoryStatus::Reserved);
    let mut keeper = InventoryKeeperService::new(
        InventoryRepository::new(ledger, "db".to_string(), "Inventories".to_string()),
        OrderTransactionRepository::new(
            orders.order_transaction_repository.transactions,
            "db".to_string(),
            "OrderTransactions".to_string(),
        ),
    );
    keeper.do_inventory_keeping_at(now + RESERVATION_WINDOW_MILLIS + 1).unwrap();
    let ledger = &keeper.inventory_repository.ledger;
    assert_eq!(ledger.get(0).unwrap().status, InventoryStatus::Sold);
    assert_eq!(ledger.get(1).unwrap().status, InventoryStatus::Sold);
    assert_eq!(ledger.get(2).unwrap().status, InventoryStatus::Available);
}

#[test]
fn a_basket_that_fails_at_its_second_item_keeps_the_first_reservation() {
    let now = 1_000_000;
    let (mut baskets, event) = basket_service(2, 700);
    let request = CreateBasketRequest {
        add_basket_item_request: vec![
            AddBasketItemRequest { event_id: event.clone(), quantity: 1 },
            AddBasketItemRequest { event_id: event.clone(), quantity: 2 },
        ],
    };
    match baskets.create_basket_at(&request, now) {
        Err(BasketErrors::Unknown(message)) => assert_eq!(message, "Not enough inventories: 1"),
        _ => panic!("a basket was created without its units"),
    }
    assert!(baskets.basket_repository.baskets.is_empty());
    let ledger = &baskets.inventory_service.inventory_repository.ledger;
    assert_eq!(ledger.get(0).unwrap().status, InventoryStatus::Reserved);
    assert_eq!(ledger.get(0).unwrap().reserved_until, now + RESERVATION_WINDOW_MILLIS);
    assert_eq!(ledger.get(1).unwrap().status, InventoryStatus::Available);
}

#[test]
fn a_basket_of_several_items_holds_their_units_in_order() {
    let now = 1_000_000;
    let (mut baskets, event) = basket_service(3, 700);
    let request = CreateBasketRequest {
        add_basket_item_request: vec![
            AddBasketItemRequest { event_id: event.clone(), quantity: 2 },
            AddBasketItemRequest { event_id: event.clone(), quantity: 0 },
            AddBasketItemRequest { event_id: event.clone(), quantity: 1 },
        ],
    };
    baskets.create_basket_at(&request, now).unwrap();
    let ledger = &baskets.inventory_service.inventory_repository.ledger;
    let stored = &baskets.basket_repository.baskets[0];
    assert_eq!(stored.basket_items.len(), 3);
    for (index, item) in stored.basket_items.iter().enumerate() {
        assert_eq!(
            item.basketed_inventories[0].inventory_id,
            ledger.get(index).unwrap().id.unwrap().to_hex()
        );
        assert_eq!(ledger.get(index).unwrap().status, InventoryStatus::Reserved);
    }
}

#[test]
fn the_reply_of_the_provider_names_the_checkout() {
    let data = checkout_data_of(CheckoutResult {
        data: ProviderCheckoutData {
            id: "cs_1".to_string(),
            data_type: "checkout_session".to_string(),
            attributes: Attributes { checkout_url: "https://pay.example/cs_1".to_string() },
        },
    });
    assert_eq!(data.checkout_id, "cs_1");
    assert_eq!(data.checkout_url, "https://pay.example/cs_1");
}

#[test]
fn a_basket_of_long_ago_is_not_shown_as_valid_now() {
    let (mut baskets, event) = basket_service(1, 700);
    let created = baskets.create_basket_at(&request(&event, 1), 1_000_000).unwrap();
    assert!(baskets.get_valid_basket(&created.basket_id).unwrap().is_none());
    let fresh = baskets.create_basket(&CreateBasketRequest { add_basket_item_request: vec![] }).unwrap();
    let shown = baskets.get_valid_basket(&fresh.basket_id).unwrap().unwrap();
    assert_eq!(shown.id, fresh.basket_id);
    assert_eq!(shown.price, 0);
    assert!(baskets.get_valid_basket("x").is_err());
}

#[test]
fn an_empty_basket_is_purchased_for_nothing() {
    let (mut baskets, _) = basket_service(1, 700);
    let created =
        baskets.create_basket(&CreateBasketRequest { add_basket_item_request: vec![] }).unwrap();
    let payments = PaymentService::new(InMemoryPaymentRepository::new());
    let mut orders = OrderService::new(InMemoryOrderTransactionRepository::new());
    let order_id = baskets.purchase_basket(&payments, &mut orders, &created.basket_id).unwrap();
    assert_eq!(orders.order_transaction_repository.transactions.len(), 1);
    assert_eq!(orders.order_transaction_repository.transactions[0].order_id.to_hex(), order_id);
    assert!(matches!(
        baskets.purchase_basket(&payments, &mut orders, "0e0e0e0e0e0e0e0e0e0e0e0e"),
        Err(BasketErrors::BasketNotFound)
    ));
    assert_eq!(orders.order_transaction_repository.transactions.len(), 1);
}
