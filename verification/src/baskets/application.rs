//! The rules of baskets: what to reserve for a request, when a basket has
//! lapsed, what it costs, and when it may be purchased.
//!
//! A basket has an expiry of its own, apart from the reservations of its
//! units. It is presented as valid only while neither has passed.
use vstd::prelude::*;
use vstd::string::StringExecFns;
use crate::baskets::data_models::{Basket, BasketItem, BasketedInventory};
use crate::baskets::data_transfer_objects::{
    AddBasketItemRequest, Basket as BasketDto, BasketItem as BasketItemDto,
    BasketPayment, BasketedInventory as BasketedInventoryDto,
};
use crate::baskets::basket_repository::InMemoryBasketRepository;
use crate::baskets::data_transfer_objects::{CreateBasketRequest, CreateBasketResult};
use crate::baskets::errors::BasketErrors;
use crate::events::application::EventService;
use crate::events::data_models::Event;
use crate::events::event_repository::event_with;
use crate::events::data_transfer_objects::EventDetails;
use crate::helpers::{decimal, decimal_string, get_current_time, str_eq};
use crate::inventories::application::{candidates, reserved_selected, InventoryService};
use crate::inventories::data_models::Inventory;
use crate::inventories::errors::{InventoryError, NOT_ENOUGH_INVENTORIES_MESSAGE};
use crate::inventories::inventory_repository::query_limit;
use crate::ledger::{carries_generated_stamp, InventoryQuery};
use crate::inventories::constants::RESERVATION_WINDOW_MILLIS;
use crate::inventories::data_transfer_objects::{ReserveInventories, ReservedInventory};
use crate::object_id::{encode_hex, parsed_object_id};
use crate::object_id::ObjectId;
use crate::orders::application::{
    basket_ids_well_formed, inventory_ids_well_formed, item_ids_well_formed, records_basket,
    OrderService,
};
use crate::orders::data_models::OrderTransactionView;
use crate::payments::application::{shows, PaymentService};
use crate::payments::data_models::Payment;
use crate::payments::persistence::payments_for_basket;
use crate::payments::constants::PAYMENT_STATUS_PAID;
use crate::payments::data_transfer_objects::PaymentView;

verus! {

/// How long a basket is valid, in milliseconds.
pub const BASKET_VALIDITY_MILLIS: i64 = 1_800_000;

pub const NO_BASKET_ID_MESSAGE: &'static str = "No basket id!";

pub const PRICE_OUT_OF_RANGE_MESSAGE: &'static str = "Basket price out of range";

/// One reservation request for each item of a basket request: the same
/// event, the same quantity, in the same order.
pub fn generate_reserve_inventory_request(add_basket_item_requests: &[AddBasketItemRequest]) -> (r:
    Vec<ReserveInventories>)
    ensures
        r@.len() == add_basket_item_requests@.len(),
        forall|i: int|
            0 <= i < r@.len() ==> #[trigger] r@[i] == (ReserveInventories {
                event_id: add_basket_item_requests@[i].event_id,
                quantity: add_basket_item_requests@[i].quantity,
            }),
{
    let mut requests: Vec<ReserveInventories> = Vec::new();
    let mut i: usize = 0;
    while i < add_basket_item_requests.len()
        invariant
            i <= add_basket_item_requests@.len(),
            requests@.len() == i,
            forall|k: int|
                0 <= k < i ==> #[trigger] requests@[k] == (ReserveInventories {
                    event_id: add_basket_item_requests@[k].event_id,
                    quantity: add_basket_item_requests@[k].quantity,
                }),
        decreases add_basket_item_requests@.len() - i,
    {
        requests.push(
            ReserveInventories {
                event_id: add_basket_item_requests[i].event_id.clone(),
                quantity: add_basket_item_requests[i].quantity,
            },
        );
        i += 1;
    }
    requests
}

/// A reserved unit as a basket holds it: the event it is for, by identifier
/// and name, the unit, and the end of its reservation.
pub fn create_basketed_inventory(event: &EventDetails, reserved_inventory: &ReservedInventory) -> (
    r:
    BasketedInventory)
    ensures
        r == (BasketedInventory {
            event_id: event.id,
            name: event.name,
            inventory_id: reserved_inventory.inventory_id,
            reserved_until: reserved_inventory.reserved_until,
        }),
{
    BasketedInventory::new(
        event.id.clone(),
        event.name.clone(),
        reserved_inventory.inventory_id.clone(),
        reserved_inventory.reserved_until,
    )
}

/// Whether `item` holds the unit of `receipt` alone, as a unit of `event`,
/// at the price of the event.
pub open spec fn is_item_for(
    item: BasketItem,
    event: EventDetails,
    receipt: ReservedInventory,
) -> bool {
    &&& item.price == event.price
    &&& item.basketed_inventories@.len() == 1
    &&& item.basketed_inventories@[0] == (BasketedInventory {
        event_id: event.id,
        name: event.name,
        inventory_id: receipt.inventory_id,
        reserved_until: receipt.reserved_until,
    })
}

/// The basket items for the reserved units of one event: one item for each
/// receipt, in the order of the receipts, holding that unit alone at the
/// price of the event.
pub fn build_basket_items(event: &EventDetails, reserved_inventories: &[ReservedInventory]) -> (r:
    Vec<BasketItem>)
    ensures
        r@.len() == reserved_inventories@.len(),
        forall|k: int|
            0 <= k < r@.len() ==> is_item_for(#[trigger] r@[k], *event, reserved_inventories@[k]),
{
    let mut items: Vec<BasketItem> = Vec::new();
    let mut j: usize = 0;
    while j < reserved_inventories.len()
        invariant
            j <= reserved_inventories@.len(),
            items@.len() == j,
            forall|k: int|
                0 <= k < j ==> is_item_for(#[trigger] items@[k], *event, reserved_inventories@[k]),
        decreases reserved_inventories@.len() - j,
    {
        let basketed_inventory = create_basketed_inventory(event, &reserved_inventories[j]);
        let mut basketed_inventories: Vec<BasketedInventory> = Vec::new();
        basketed_inventories.push(basketed_inventory);
        items.push(BasketItem { price: event.price, basketed_inventories });
        j += 1;
    }
    items
}

/// The basket that is opened at `now` for `basket_items`: it has no
/// identifier yet and is valid for half an hour.
pub fn open_basket(basket_items: Vec<BasketItem>, now: i64) -> (r: Basket)
    requires
        now + BASKET_VALIDITY_MILLIS <= i64::MAX,
    ensures
        r.id is None,
        r.valid_until == now + BASKET_VALIDITY_MILLIS,
        r.basket_items == basket_items,
{
    Basket::new(now + BASKET_VALIDITY_MILLIS, basket_items)
}

/// Checks that a reservation handed out a receipt for every requested unit.
/// The failure names the number of receipts.
pub fn check_reserved_in_full(reserved_inventories: &[ReservedInventory], quantity: i32) -> (r:
    Result<(), BasketErrors>)
    ensures
        r is Ok <==> reserved_inventories@.len() == quantity,
        r matches Err(e) ==> e matches BasketErrors::Unknown(message) && message@
            == NOT_ENOUGH_INVENTORIES_MESSAGE@ + decimal(reserved_inventories@.len()),
{
    if quantity >= 0 && reserved_inventories.len() as u128 == quantity as u128 {
        Ok(())
    } else {
        Err(
            BasketErrors::Unknown(
                NOT_ENOUGH_INVENTORIES_MESSAGE.to_owned().concat(
                    decimal_string(reserved_inventories.len() as u128).as_str(),
                ),
            ),
        )
    }
}

/// Whether the basket's own expiry has passed at `now`.
pub fn is_basket_expired(basket: &Basket, now: i64) -> (r: bool)
    ensures
        r == (basket.valid_until < now),
{
    basket.valid_until < now
}

/// Whether every unit of the basket is still reserved at `now`.
pub open spec fn all_inventory_reserved(basket: Basket, now: i64) -> bool {
    forall|i: int, j: int|
        0 <= i < basket.basket_items@.len() && 0 <= j
            < basket.basket_items@[i].basketed_inventories@.len() ==> (
        #[trigger] basket.basket_items@[i].basketed_inventories@[j]).reserved_until >= now
}

/// Whether every unit of the basket is still reserved at `now`.
pub fn is_all_inventory_reserved(basket: &Basket, now: i64) -> (r: bool)
    ensures
        r == all_inventory_reserved(*basket, now),
{
    let mut i: usize = 0;
    while i < basket.basket_items.len()
        invariant
            i <= basket.basket_items@.len(),
            forall|a: int, b: int|
                0 <= a < i && 0 <= b < basket.basket_items@[a].basketed_inventories@.len() ==> (
                #[trigger] basket.basket_items@[a].basketed_inventories@[b]).reserved_until >= now,
        decreases basket.basket_items@.len() - i,
    {
        let item = &basket.basket_items[i];
        let mut j: usize = 0;
        while j < item.basketed_inventories.len()
            invariant
                i < basket.basket_items@.len(),
                *item == basket.basket_items@[i as int],
                j <= item.basketed_inventories@.len(),
                forall|b: int|
                    0 <= b < j ==> (
                    #[trigger] basket.basket_items@[i as int].basketed_inventories@[b]).reserved_until
                        >= now,
            decreases item.basketed_inventories@.len() - j,
        {
            if item.basketed_inventories[j].reserved_until < now {
                return false;
            }
            j += 1;
        }
        i += 1;
    }
    true
}

/// Whether the basket may be presented as valid at `now`: neither its own
/// expiry nor the reservation of any of its units has passed.
pub open spec fn basket_valid(basket: Basket, now: i64) -> bool {
    all_inventory_reserved(basket, now) && basket.valid_until >= now
}

/// Whether the basket may be presented as valid at `now`.
pub fn is_basket_valid(basket: &Basket, now: i64) -> (r: bool)
    ensures
        r == basket_valid(*basket, now),
{
    is_all_inventory_reserved(basket, now) && !is_basket_expired(basket, now)
}

/// The sum of the prices of the items.
pub open spec fn total_price(items: Seq<BasketItem>) -> int
    decreases items.len(),
{
    if items.len() == 0 {
        0
    } else {
        total_price(items.drop_last()) + items.last().price
    }
}

/// The sum of the amounts of the payments that are paid.
pub open spec fn paid_total(payments: Seq<PaymentView>) -> int
    decreases payments.len(),
{
    if payments.len() == 0 {
        0
    } else {
        paid_total(payments.drop_last()) + if payments.last().status@ == PAYMENT_STATUS_PAID@ {
            payments.last().amount as int
        } else {
            0
        }
    }
}

/// The sum of the prices of the items of the basket.
fn exact_total_price(basket: &Basket) -> (r: i128)
    ensures
        r == total_price(basket.basket_items@),
{
    let mut total: i128 = 0;
    let mut i: usize = 0;
    while i < basket.basket_items.len()
        invariant
            i <= basket.basket_items@.len(),
            total == total_price(basket.basket_items@.take(i as int)),
            -(i as int) * 0x8000_0000 <= total <= (i as int) * 0x8000_0000,
        decreases basket.basket_items@.len() - i,
    {
        proof {
            assert(basket.basket_items@.take(i + 1).drop_last() =~= basket.basket_items@.take(
                i as int,
            ));
        }
        total = total + basket.basket_items[i].price as i128;
        i += 1;
    }
    proof {
        assert(basket.basket_items@.take(i as int) =~= basket.basket_items@);
    }
    total
}

/// The sum of the amounts of the payments that are paid.
fn exact_paid_total(payments: &Vec<PaymentView>) -> (r: i128)
    ensures
        r == paid_total(payments@),
{
    let mut total: i128 = 0;
    let mut i: usize = 0;
    while i < payments.len()
        invariant
            i <= payments@.len(),
            total == paid_total(payments@.take(i as int)),
            -(i as int) * 0x8000_0000 <= total <= (i as int) * 0x8000_0000,
        decreases payments@.len() - i,
    {
        proof {
            assert(payments@.take(i + 1).drop_last() =~= payments@.take(i as int));
        }
        if str_eq(payments[i].status.as_str(), PAYMENT_STATUS_PAID) {
            total = total + payments[i].amount as i128;
        }
        i += 1;
    }
    proof {
        assert(payments@.take(i as int) =~= payments@);
    }
    total
}

/// The price of the basket: the sum of the prices of its items, where that
/// is a price.
pub fn compute_basket_total_price(basket: &Basket) -> (r: Option<i32>)
    ensures
        r is Some <==> i32::MIN <= total_price(basket.basket_items@) <= i32::MAX,
        r matches Some(price) ==> price == total_price(basket.basket_items@),
{
    let total = exact_total_price(basket);
    if total < i32::MIN as i128 || total > i32::MAX as i128 {
        None
    } else {
        Some(total as i32)
    }
}

/// Whether the paid payments cover the price of the basket.
pub fn is_basket_paid(basket: &Basket, basket_payments: &Vec<PaymentView>) -> (r: bool)
    ensures
        r == (paid_total(basket_payments@) >= total_price(basket.basket_items@)),
{
    exact_paid_total(basket_payments) >= exact_total_price(basket)
}

/// Why the basket cannot be purchased at `now`, if it cannot: it has
/// expired where its own expiry or the reservation of one of its units has
/// passed, and it is unpaid where the paid payments do not cover its price.
pub open spec fn purchase_obstacle(basket: Basket, basket_payments: Seq<PaymentView>,
    now: i64) -> Option<
    BasketErrors,
> {
    if !basket_valid(basket, now) {
        Some(BasketErrors::BasketExpired)
    } else if paid_total(basket_payments) < total_price(basket.basket_items@) {
        Some(BasketErrors::BasketUnpaid)
    } else {
        None
    }
}

/// Checks that the basket can be purchased at `now`.
pub fn check_purchase(basket: &Basket, basket_payments: &Vec<PaymentView>, now: i64) -> (r: Result<
    (),
    BasketErrors,
>)
    ensures
        match purchase_obstacle(*basket, basket_payments@, now) {
            Some(e) => r == Err::<(), BasketErrors>(e),
            None => r is Ok,
        },
{
    if !is_all_inventory_reserved(basket, now) {
        return Err(BasketErrors::BasketExpired);
    }
    if is_basket_expired(basket, now) {
        return Err(BasketErrors::BasketExpired);
    }
    if !is_basket_paid(basket, basket_payments) {
        return Err(BasketErrors::BasketUnpaid);
    }
    Ok(())
}

/// Whether `shown` shows the unit `stored`.
pub open spec fn shows_inventory(shown: BasketedInventoryDto, stored: BasketedInventory) -> bool {
    &&& shown.event_id@ == stored.event_id@
    &&& shown.name@ == stored.name@
    &&& shown.inventory_id@ == stored.inventory_id@
    &&& shown.reserved_until == stored.reserved_until
}

/// Whether `shown` shows the item `stored`.
pub open spec fn shows_item(shown: BasketItemDto, stored: BasketItem) -> bool {
    &&& shown.price == stored.price
    &&& shown.basketed_inventories@.len() == stored.basketed_inventories@.len()
    &&& forall|j: int|
        0 <= j < shown.basketed_inventories@.len() ==> shows_inventory(
            #[trigger] shown.basketed_inventories@[j],
            stored.basketed_inventories@[j],
        )
}

/// Whether `shown` shows the payment `payment`.
pub open spec fn shows_payment(shown: BasketPayment, payment: PaymentView) -> bool {
    &&& shown.id@ == payment.id@
    &&& shown.created_at == payment.created_at
    &&& shown.status@ == payment.status@
    &&& shown.amount == payment.amount
    &&& shown.currency@ == payment.currency@
    &&& shown.provider@ == payment.provider@
    &&& shown.payment_type@ == payment.payment_type@
}

/// Whether `shown` shows the basket `stored` with the payments `payments`.
pub open spec fn shows_basket(shown: BasketDto, stored: Basket,
    payments: Seq<PaymentView>) -> bool {
    &&& stored.id matches Some(id) && shown.id@ == encode_hex(id@)
    &&& shown.original_order_id is None
    &&& shown.valid_until == stored.valid_until
    &&& shown.price == total_price(stored.basket_items@)
    &&& shown.basket_items@.len() == stored.basket_items@.len()
    &&& forall|i: int|
        0 <= i < shown.basket_items@.len() ==> shows_item(
            #[trigger] shown.basket_items@[i],
            stored.basket_items@[i],
        )
    &&& shown.payments@.len() == payments.len()
    &&& forall|i: int|
        0 <= i < shown.payments@.len() ==> shows_payment(#[trigger] shown.payments@[i], payments[i])
}

/// A payment as a basket shows it.
pub fn payment_view_to_basket_payment(payment_view: &PaymentView) -> (r: BasketPayment)
    ensures
        shows_payment(r, *payment_view),
{
    BasketPayment {
        id: payment_view.id.clone(),
        created_at: payment_view.created_at,
        status: payment_view.status.clone(),
        amount: payment_view.amount,
        currency: payment_view.currency.clone(),
        provider: payment_view.provider.clone(),
        payment_type: payment_view.payment_type.clone(),
    }
}

/// An item as a basket shows it.
fn map_basket_item(basket_item: &BasketItem) -> (r: BasketItemDto)
    ensures
        shows_item(r, *basket_item),
{
    let mut inventories: Vec<BasketedInventoryDto> = Vec::new();
    let mut j: usize = 0;
    while j < basket_item.basketed_inventories.len()
        invariant
            j <= basket_item.basketed_inventories@.len(),
            inventories@.len() == j,
            forall|k: int|
                0 <= k < j ==> shows_inventory(
                    #[trigger] inventories@[k],
                    basket_item.basketed_inventories@[k],
                ),
        decreases basket_item.basketed_inventories@.len() - j,
    {
        let stored = &basket_item.basketed_inventories[j];
        inventories.push(
            BasketedInventoryDto {
                event_id: stored.event_id.clone(),
                name: stored.name.clone(),
                inventory_id: stored.inventory_id.clone(),
                reserved_until: stored.reserved_until,
            },
        );
        j += 1;
    }
    BasketItemDto { basketed_inventories: inventories, price: basket_item.price }
}

/// The stored basket as it is shown, with its payments. Fails where the
/// basket has no identifier, and where the sum of its prices is no price.
pub fn map_dto_basket_from_data_basket(data_basket: &Basket, payments: Vec<PaymentView>) -> (r:
    Result<BasketDto, BasketErrors>)
    ensures
        r is Ok <==> data_basket.id is Some && i32::MIN <= total_price(data_basket.basket_items@)
            <= i32::MAX,
        r matches Ok(shown) ==> shows_basket(shown, *data_basket, payments@),
        r matches Err(e) ==> e matches BasketErrors::Unknown(message) && message@ == (if i32::MIN
            <= total_price(data_basket.basket_items@) <= i32::MAX {
            NO_BASKET_ID_MESSAGE@
        } else {
            PRICE_OUT_OF_RANGE_MESSAGE@
        }),
{
    let price = match compute_basket_total_price(data_basket) {
        Some(price) => price,
        None => {
            return Err(BasketErrors::Unknown(PRICE_OUT_OF_RANGE_MESSAGE.to_owned()));
        },
    };
    let mut basket_items: Vec<BasketItemDto> = Vec::new();
    let mut i: usize = 0;
    while i < data_basket.basket_items.len()
        invariant
            i <= data_basket.basket_items@.len(),
            basket_items@.len() == i,
            forall|k: int|
                0 <= k < i ==> shows_item(#[trigger] basket_items@[k],
                    data_basket.basket_items@[k]),
        decreases data_basket.basket_items@.len() - i,
    {
        basket_items.push(map_basket_item(&data_basket.basket_items[i]));
        i += 1;
    }
    let id = match data_basket.id {
        Some(id) => id.to_hex(),
        None => {
            return Err(BasketErrors::Unknown(NO_BASKET_ID_MESSAGE.to_owned()));
        },
    };
    let mut shown_payments: Vec<BasketPayment> = Vec::new();
    let mut p: usize = 0;
    while p < payments.len()
        invariant
            p <= payments@.len(),
            shown_payments@.len() == p,
            forall|k: int|
                0 <= k < p ==> shows_payment(#[trigger] shown_payments@[k], payments@[k]),
        decreases payments@.len() - p,
    {
        shown_payments.push(payment_view_to_basket_payment(&payments[p]));
        p += 1;
    }
    Ok(
        BasketDto {
            id,
            original_order_id: None,
            valid_until: data_basket.valid_until,
            basket_items,
            price,
            payments: shown_payments,
        },
    )
}

pub const EVENT_NOT_FOUND_MESSAGE: &'static str = "Event not found";

pub const MALFORMED_IDENTIFIER_MESSAGE: &'static str = "Malformed identifier";

pub const PAYMENT_WITHOUT_ID_MESSAGE: &'static str = "Failed to get object id for payment id";

/// The number of units that the items of a basket request ask for.
pub open spec fn total_quantity(requests: Seq<AddBasketItemRequest>) -> int
    decreases requests.len(),
{
    if requests.len() == 0 {
        0
    } else {
        total_quantity(requests.drop_last()) + requests.last().quantity
    }
}

/// The stored event that an item of a basket request names, if it names
/// one.
pub open spec fn requested_event(events: Seq<Event>, request: AddBasketItemRequest) -> Option<
    Event,
> {
    match parsed_object_id(request.event_id@) {
        Some(id) => event_with(events, id),
        None => None,
    }
}

/// Whether `item` holds one unit of `event`, at the price of the event.
pub open spec fn is_item_of(item: BasketItem, event: Event) -> bool {
    &&& item.price == event.price
    &&& item.basketed_inventories@.len() == 1
    &&& item.basketed_inventories@[0].name@ == event.name@
    &&& item.basketed_inventories@[0].event_id@ == match event.id {
        Some(id) => encode_hex(id@),
        None => Seq::<char>::empty(),
    }
}

/// Whether the unit that `item` holds is `unit`, reserved until `until`.
pub open spec fn is_unit_of(item: BasketItem, unit: Inventory, until: i64) -> bool {
    &&& item.basketed_inventories@.len() == 1
    &&& unit.id is Some
    &&& item.basketed_inventories@[0].inventory_id@ == encode_hex(unit.id.unwrap()@)
    &&& item.basketed_inventories@[0].reserved_until == until
}

/// Whether `after` is the ledger `before` after the reservation for one item
/// of a basket request at `now`, and `items` are the basket items made of
/// it: the event of the item is stored, as many of its units were free as
/// the item asks for, exactly these are reserved for the reservation window,
/// and there is one basket item for each of them, in order.
pub open spec fn item_reserved(
    before: Seq<Inventory>,
    after: Seq<Inventory>,
    events: Seq<Event>,
    request: AddBasketItemRequest,
    now: i64,
    items: Seq<BasketItem>,
) -> bool {
    &&& requested_event(events, request) is Some
    &&& candidates(
        before,
        parsed_object_id(request.event_id@).unwrap(),
        request.quantity,
        now,
    ).len() == request.quantity
    &&& reserved_selected(
        before,
        after,
        InventoryQuery::Unreserved {
            event_id: parsed_object_id(request.event_id@).unwrap(),
            cut_off: now,
        },
        query_limit(request.quantity as i64),
        (now + RESERVATION_WINDOW_MILLIS) as i64,
    )
    &&& items.len() == request.quantity
    &&& forall|t: int|
        0 <= t < items.len() ==> is_item_of(
            #[trigger] items[t],
            requested_event(events, request).unwrap(),
        ) && is_unit_of(
            items[t],
            candidates(
                before,
                parsed_object_id(request.event_id@).unwrap(),
                request.quantity,
                now,
            )[t],
            (now + RESERVATION_WINDOW_MILLIS) as i64,
        )
}

/// Whether `states` and `parts` are the course of a basket request through
/// its first `count` items: each state of the ledger is the one before it
/// after the reservation for the item of the same position, and each part
/// holds the basket items made of that reservation.
pub open spec fn is_basket_run(
    states: Seq<Seq<Inventory>>,
    parts: Seq<Seq<BasketItem>>,
    events: Seq<Event>,
    requests: Seq<AddBasketItemRequest>,
    now: i64,
    count: int,
) -> bool {
    &&& 0 <= count <= requests.len()
    &&& states.len() == count + 1
    &&& parts.len() == count
    &&& forall|k: int|
        0 <= k < count ==> item_reserved(
            states[k],
            states[k + 1],
            events,
            requests[k],
            now,
            #[trigger] parts[k],
        )
}

/// The items of all parts, one part after the other.
pub open spec fn all_items(parts: Seq<Seq<BasketItem>>) -> Seq<BasketItem>
    decreases parts.len(),
{
    if parts.len() == 0 {
        Seq::empty()
    } else {
        all_items(parts.drop_last()) + parts.last()
    }
}

/// Whether `error` reports why the item `request` of a basket request fails
/// on the ledger `rows` at `now`: its event identifier is malformed, its
/// event is not stored, fewer of its units are free than it asks for, or the
/// ledger aborted the batch, which takes a candidate with a stamp that can be
/// generated.
pub open spec fn is_item_failure(
    error: BasketErrors,
    rows: Seq<Inventory>,
    events: Seq<Event>,
    request: AddBasketItemRequest,
    now: i64,
) -> bool {
    error matches BasketErrors::Unknown(message) && match parsed_object_id(request.event_id@) {
        None => message@ == MALFORMED_IDENTIFIER_MESSAGE@,
        Some(id) => match event_with(events, id) {
            None => message@ == EVENT_NOT_FOUND_MESSAGE@,
            Some(_) => {
                let found = candidates(rows, id, request.quantity, now);
                if found.len() != request.quantity {
                    message@ == (InventoryError::InsufficientInventory {
                        requested: request.quantity,
                        found: found.len() as usize,
                    }).message()
                } else {
                    message@ == InventoryError::TransactionAborted.message()
                        && carries_generated_stamp(found)
                }
            },
        },
    }
}

/// Whether `r`, the ledger `rows_after` and the baskets `baskets_after` are
/// the outcome of a basket request at `now` on the ledger `rows_before`, the
/// baskets `baskets_before` and the stored `events`. On success the request
/// has run through all its items and a basket that holds their items, valid
/// for half an hour, is stored last. On failure no basket is stored, the
/// request has run through the items before the failing one, and the error
/// says why that item failed on the ledger as it then was.
pub open spec fn is_basket_outcome(
    r: Result<CreateBasketResult, BasketErrors>,
    rows_before: Seq<Inventory>,
    rows_after: Seq<Inventory>,
    baskets_before: Seq<Basket>,
    baskets_after: Seq<Basket>,
    events: Seq<Event>,
    requests: Seq<AddBasketItemRequest>,
    now: i64,
) -> bool {
    match r {
        Ok(result) => {
            &&& baskets_after.len() == baskets_before.len() + 1
            &&& baskets_after.drop_last() == baskets_before
            &&& baskets_after.last().id matches Some(id) && result.basket_id@ == encode_hex(id@)
            &&& baskets_after.last().valid_until == now + BASKET_VALIDITY_MILLIS
            &&& baskets_after.last().basket_items@.len() == total_quantity(requests)
            &&& exists|states: Seq<Seq<Inventory>>, parts: Seq<Seq<BasketItem>>|
                {
                    &&& #[trigger] is_basket_run(
                        states,
                        parts,
                        events,
                        requests,
                        now,
                        requests.len() as int,
                    )
                    &&& states[0] == rows_before
                    &&& states.last() == rows_after
                    &&& baskets_after.last().basket_items@ == all_items(parts)
                }
        },
        Err(e) => {
            &&& baskets_after == baskets_before
            &&& exists|states: Seq<Seq<Inventory>>, parts: Seq<Seq<BasketItem>>, m: int|
                {
                    &&& #[trigger] is_basket_run(states, parts, events, requests, now, m)
                    &&& m < requests.len()
                    &&& states[0] == rows_before
                    &&& states.last() == rows_after
                    &&& is_item_failure(e, states.last(), events, requests[m], now)
                }
        },
    }
}

/// Whether `r` is the outcome of asking at `now` for the valid basket that
/// `basket_id` names among `baskets`: the text must name a basket; a basket
/// that is not stored, or whose own expiry or the reservation of one of its
/// units has passed, is not shown; a basket whose prices do not add up to a
/// price cannot be shown; any other basket is shown, without payments.
pub open spec fn is_valid_basket_outcome(
    r: Result<Option<BasketDto>, BasketErrors>,
    baskets: Seq<Basket>,
    basket_id: Seq<char>,
    now: i64,
) -> bool {
    match parsed_object_id(basket_id) {
        None => r matches Err(BasketErrors::Unknown(message)) && message@
            == MALFORMED_IDENTIFIER_MESSAGE@,
        Some(id) => if !has_basket(baskets, id) || !basket_valid(stored_basket(baskets, id), now) {
            r matches Ok(None)
        } else if !(i32::MIN <= total_price(stored_basket(baskets, id).basket_items@)
            <= i32::MAX) {
            r matches Err(BasketErrors::Unknown(message)) && message@
                == PRICE_OUT_OF_RANGE_MESSAGE@
        } else {
            r matches Ok(Some(shown)) && shows_basket(
                shown,
                stored_basket(baskets, id),
                Seq::<PaymentView>::empty(),
            )
        },
    }
}

/// Whether `r` and the orders `orders_after` are the outcome of the
/// purchase, at `now`, of the basket that `basket_id` names, on the stored
/// `baskets` and `payments` and the orders `orders_before`. Where the
/// purchase cannot be made, the error says why and nothing is recorded.
/// Otherwise the order identifier is returned and one order is recorded,
/// last: it records the stored basket as it is shown with its payments.
pub open spec fn is_purchase_outcome(
    r: Result<String, BasketErrors>,
    baskets: Seq<Basket>,
    payments: Seq<Payment>,
    basket_id: Seq<char>,
    orders_before: Seq<OrderTransactionView>,
    orders_after: Seq<OrderTransactionView>,
    now: i64,
) -> bool {
    match purchase_failure(baskets, payments, basket_id, now) {
        Some(failure) => r matches Err(e) && failure.is_reported_by(e) && orders_after
            == orders_before,
        None => {
            &&& r matches Ok(order_id) && parsed_object_id(order_id@) == Some(
                orders_after.last().order_id,
            )
            &&& orders_after.len() == orders_before.len() + 1
            &&& orders_after.drop_last() == orders_before
            &&& exists|shown: BasketDto, views: Seq<PaymentView>|
                {
                    &&& #[trigger] shows_basket(
                        shown,
                        stored_basket(baskets, parsed_object_id(basket_id).unwrap()),
                        views,
                    )
                    &&& are_views_of(
                        views,
                        payments_for_basket(payments, parsed_object_id(basket_id).unwrap()),
                    )
                    &&& records_basket(
                        orders_after.last(),
                        shown,
                        orders_after.last().order_id,
                        orders_after.last().id,
                        orders_after.last().created_at,
                    )
                }
        },
    }
}

/// The basket service. It holds the inventory service, and through it the
/// ledger, the event service, and the store of baskets.
#[derive(Debug)]
pub struct BasketService {
    pub inventory_service: InventoryService,
    pub event_service: EventService,
    pub basket_repository: InMemoryBasketRepository,
}

impl BasketService {
    /// The stored baskets.
    pub open spec fn baskets(&self) -> Seq<Basket> {
        self.basket_repository.baskets@
    }

    /// The invariant of the ledger that the service holds.
    pub open spec fn wf(&self) -> bool {
        self.inventory_service.wf()
    }

    pub fn new(
        inventory_service: InventoryService,
        event_service: EventService,
        basket_repository: InMemoryBasketRepository,
    ) -> (r: Self)
        ensures
            r.inventory_service == inventory_service,
            r.event_service == event_service,
            r.basket_repository == basket_repository,
    {
        BasketService { inventory_service, event_service, basket_repository }
    }

    /// Creates a basket at `now`: reserves the units of each item of the
    /// request, one item after the other, and stores a basket that holds one
    /// item for every reserved unit, at the price of its event, valid for
    /// half an hour. Fails, storing no basket, at the first item whose event
    /// is not stored or whose reservation fails; the reservations made for
    /// the items before it stay until they lapse.
    pub fn create_basket_at(&mut self, create_basket_request: &CreateBasketRequest, now: i64) -> (r:
        Result<CreateBasketResult, BasketErrors>)
        requires
            old(self).wf(),
            now + RESERVATION_WINDOW_MILLIS <= i64::MAX,
        ensures
            final(self).wf(),
            final(self).event_service == old(self).event_service,
            final(self).inventory_service.generate_inventories() == old(
                self).inventory_service.generate_inventories(),
            is_basket_outcome(
                r,
                old(self).inventory_service.inventories(),
                final(self).inventory_service.inventories(),
                old(self).baskets(),
                final(self).baskets(),
                old(self).event_service.events(),
                create_basket_request.add_basket_item_request@,
                now,
            ),
    {
        let ghost requests = create_basket_request.add_basket_item_request@;
        let ghost events = self.event_service.events();
        let ghost mut states: Seq<Seq<Inventory>> = seq![self.inventory_service.inventories()];
        let ghost mut parts: Seq<Seq<BasketItem>> = seq![];
        let inventory_requests = generate_reserve_inventory_request(
            create_basket_request.add_basket_item_request.as_slice(),
        );
        let mut basket_items: Vec<BasketItem> = Vec::new();
        let mut i: usize = 0;
        while i < inventory_requests.len()
            invariant
                i <= inventory_requests@.len(),
                inventory_requests@.len() == requests.len(),
                self.wf(),
                now + RESERVATION_WINDOW_MILLIS <= i64::MAX,
                self.event_service == old(self).event_service,
                self.baskets() == old(self).baskets(),
                self.inventory_service.generate_inventories() == old(
                    self).inventory_service.generate_inventories(),
                requests == create_basket_request.add_basket_item_request@,
                events == self.event_service.events(),
                forall|m: int|
                    0 <= m < inventory_requests@.len() ==> #[trigger] inventory_requests@[m] == (
                    ReserveInventories {
                        event_id: requests[m].event_id,
                        quantity: requests[m].quantity,
                    }),
                is_basket_run(states, parts, events, requests, now, i as int),
                states[0] == old(self).inventory_service.inventories(),
                states.last() == self.inventory_service.inventories(),
                basket_items@ == all_items(parts),
                basket_items@.len() == total_quantity(requests.take(i as int)),
            decreases inventory_requests@.len() - i,
        {
            let inventory_request = &inventory_requests[i];
            let ghost request = requests[i as int];
            let ghost before = self.inventory_service.inventories();
            proof {
                assert(crate::ledger::inventories_well_formed(before));
                assert(requests.take(i + 1).drop_last() =~= requests.take(i as int));
                assert(inventory_requests@[i as int].event_id == request.event_id);
            }
            let event = match self.event_service.get_event(inventory_request.event_id.as_str()) {
                Ok(Some(event)) => event,
                Ok(None) => {
                    let e = BasketErrors::Unknown(EVENT_NOT_FOUND_MESSAGE.to_owned());
                    proof {
                        assert(is_item_failure(e, states.last(), events, request, now));
                        assert(is_basket_run(states, parts, events, requests, now, i as int));
                    }
                    return Err(e);
                },
                Err(_) => {
                    let e = BasketErrors::Unknown(MALFORMED_IDENTIFIER_MESSAGE.to_owned());
                    proof {
                        assert(is_item_failure(e, states.last(), events, request, now));
                        assert(is_basket_run(states, parts, events, requests, now, i as int));
                    }
                    return Err(e);
                },
            };
            let ghost stored_event = requested_event(events, request).unwrap();
            let ghost event_id = parsed_object_id(request.event_id@).unwrap();
            let ghost found = candidates(before, event_id, request.quantity, now);
            let result = match self.inventory_service.reserve_inventories_at(
                inventory_request,
                now,
            ) {
                Ok(result) => result,
                Err(failure) => {
                    let e = BasketErrors::Unknown(failure.to_string());
                    proof {
                        assert(is_item_failure(e, states.last(), events, request, now));
                        assert(is_basket_run(states, parts, events, requests, now, i as int));
                    }
                    return Err(e);
                },
            };
            let ghost whole = basket_items@;
            let ghost mut part: Seq<BasketItem> = seq![];
            proof {
                crate::inventories::application::lemma_candidates_identified(
                    before,
                    event_id,
                    request.quantity,
                    now,
                );
            }
            match check_reserved_in_full(
                result.reserved_inventories.as_slice(),
                inventory_request.quantity,
            ) {
                Ok(_) => {},
                Err(e) => {
                    return Err(e);
                },
            }
            let mut items = build_basket_items(&event, result.reserved_inventories.as_slice());
            proof {
                part = items@;
                assert forall|t: int| 0 <= t < part.len() implies is_item_of(
                    #[trigger] part[t],
                    stored_event,
                ) && is_unit_of(part[t], found[t], (now + RESERVATION_WINDOW_MILLIS) as i64) by {
                    assert(is_item_for(part[t], event, result.reserved_inventories@[t]));
                }
            }
            basket_items.append(&mut items);
            assert(basket_items@ =~= whole + part);
            proof {
                let previous = parts;
                let earlier = states;
                parts = parts.push(part);
                states = states.push(self.inventory_service.inventories());
                assert(parts.drop_last() =~= previous);
                assert(item_reserved(before, states.last(), events, request, now, part));
                assert forall|k: int| 0 <= k < i + 1 implies item_reserved(
                    states[k],
                    states[k + 1],
                    events,
                    requests[k],
                    now,
                    #[trigger] parts[k],
                ) by {
                    if k < i {
                        assert(parts[k] == previous[k]);
                        assert(states[k] == earlier[k]);
                        assert(states[k + 1] == earlier[k + 1]);
                    }
                }
            }
            i += 1;
        }
        proof {
            assert(requests.take(i as int) =~= requests);
        }
        let basket = open_basket(basket_items, now);
        match self.basket_repository.add(basket) {
            Some(basket_id) => Ok(CreateBasketResult { basket_id }),
            None => Err(BasketErrors::Unknown(NO_BASKET_ID_MESSAGE.to_owned())),
        }
    }

    /// Creates a basket at the current time: reserves the units of each item
    /// of the request, one item after the other, and stores a basket that
    /// holds one item for every reserved unit, valid for half an hour.
    /// Fails, storing no basket, at the first item whose event is not stored
    /// or whose reservation fails. A request without items always succeeds.
    pub fn create_basket(&mut self, create_basket_request: &CreateBasketRequest) -> (r: Result<
        CreateBasketResult,
        BasketErrors,
    >)
        requires
            old(self).wf(),
        ensures
            final(self).wf(),
            final(self).event_service == old(self).event_service,
            final(self).inventory_service.generate_inventories() == old(
                self).inventory_service.generate_inventories(),
            create_basket_request.add_basket_item_request@.len() == 0 ==> r is Ok,
            exists|now: i64|
                #[trigger] is_basket_outcome(
                    r,
                    old(self).inventory_service.inventories(),
                    final(self).inventory_service.inventories(),
                    old(self).baskets(),
                    final(self).baskets(),
                    old(self).event_service.events(),
                    create_basket_request.add_basket_item_request@,
                    now,
                ),
    {
        let now = get_current_time();
        let r = self.create_basket_at(create_basket_request, now);
        proof {
            assert(is_basket_outcome(
                r,
                old(self).inventory_service.inventories(),
                self.inventory_service.inventories(),
                old(self).baskets(),
                self.baskets(),
                old(self).event_service.events(),
                create_basket_request.add_basket_item_request@,
                now,
            ));
            if r is Err {
                let (states, parts, m) = choose|
                    states: Seq<Seq<Inventory>>,
                    parts: Seq<Seq<BasketItem>>,
                    m: int,
                |
                    #[trigger] is_basket_run(
                        states,
                        parts,
                        old(self).event_service.events(),
                        create_basket_request.add_basket_item_request@,
                        now,
                        m,
                    ) && m < create_basket_request.add_basket_item_request@.len();
            }
        }
        r
    }

    /// Shows the basket with the given identifier where it is valid at
    /// `now`. A basket that is not stored, or whose own expiry or the
    /// reservation of one of its units has passed, is not shown. Fails where
    /// the text names no basket, and where the sum of the prices of the
    /// basket is no price.
    pub fn get_valid_basket_at(&self, basket_id: &str, now: i64) -> (r: Result<
        Option<BasketDto>,
        BasketErrors,
    >)
        ensures
            is_valid_basket_outcome(r, self.baskets(), basket_id@, now),
    {
        let position = match self.basket_repository.get(basket_id) {
            Ok(position) => position,
            Err(_) => {
                return Err(BasketErrors::Unknown(MALFORMED_IDENTIFIER_MESSAGE.to_owned()));
            },
        };
        let ghost id = parsed_object_id(basket_id@).unwrap();
        match position {
            None => {
                proof {
                    assert forall|p: int| !is_basket_position(self.baskets(), id, p) by {
                        if 0 <= p < self.baskets().len() {
                            assert(self.baskets()[p].id != Some(id));
                        }
                    }
                }
                Ok(None)
            },
            Some(i) => {
                let basket = &self.basket_repository.baskets[i];
                proof {
                    assert(is_basket_position(self.baskets(), id, i as int));
                    lemma_basket_position_unique(self.baskets(), id, i as int);
                }
                if !is_all_inventory_reserved(basket, now) {
                    return Ok(None);
                }
                if is_basket_expired(basket, now) {
                    return Ok(None);
                }
                match map_dto_basket_from_data_basket(basket, Vec::new()) {
                    Ok(shown) => Ok(Some(shown)),
                    Err(e) => Err(e),
                }
            },
        }
    }

    /// Shows the basket with the given identifier where it is valid at the
    /// current time. A basket that is not stored is never shown.
    pub fn get_valid_basket(&self, basket_id: &str) -> (r: Result<Option<BasketDto>, BasketErrors>)
        ensures
            parsed_object_id(basket_id@) matches Some(id) && !has_basket(self.baskets(), id)
                ==> r matches Ok(None),
            exists|now: i64| #[trigger] is_valid_basket_outcome(r, self.baskets(), basket_id@, now),
    {
        let now = get_current_time();
        let r = self.get_valid_basket_at(basket_id, now);
        proof {
            assert(is_valid_basket_outcome(r, self.baskets(), basket_id@, now));
        }
        r
    }

    /// Purchases the basket with the given identifier at `now`: checks that
    /// it is stored, valid and paid, and records it as an order. Returns the
    /// text form of the order identifier. Where the purchase fails, nothing
    /// is recorded.
    pub fn purchase_basket_at(
        &self,
        payment_service: &PaymentService,
        order_service: &mut OrderService,
        basket_id: &str,
        now: i64,
    ) -> (r: Result<String, BasketErrors>)
        ensures
            is_purchase_outcome(
                r,
                self.baskets(),
                payment_service.payments(),
                basket_id@,
                old(order_service).orders(),
                final(order_service).orders(),
                now,
            ),
    {
        let position = match self.basket_repository.get(basket_id) {
            Ok(position) => position,
            Err(_) => {
                return Err(BasketErrors::Unknown(MALFORMED_IDENTIFIER_MESSAGE.to_owned()));
            },
        };
        let ghost id = parsed_object_id(basket_id@).unwrap();
        let i = match position {
            Some(i) => i,
            None => {
                proof {
                    assert forall|p: int| !is_basket_position(self.baskets(), id, p) by {
                        if 0 <= p < self.baskets().len() {
                            assert(self.baskets()[p].id != Some(id));
                        }
                    }
                }
                return Err(BasketErrors::BasketNotFound);
            },
        };
        let basket = &self.basket_repository.baskets[i];
        proof {
            assert(is_basket_position(self.baskets(), id, i as int));
            lemma_basket_position_unique(self.baskets(), id, i as int);
        }
        if !is_all_inventory_reserved(basket, now) {
            return Err(BasketErrors::BasketExpired);
        }
        if is_basket_expired(basket, now) {
            return Err(BasketErrors::BasketExpired);
        }
        let ghost found = payments_for_basket(payment_service.payments(), id);
        let basket_payments = match payment_service.get_basket_payments(basket_id) {
            Ok(basket_payments) => basket_payments,
            Err(_) => {
                return Err(BasketErrors::Unknown(PAYMENT_WITHOUT_ID_MESSAGE.to_owned()));
            },
        };
        let ghost views = basket_payments@;
        proof {
            assert(are_views_of(views, found));
            assert forall|k: int| 0 <= k < found.len() implies (#[trigger] found[k]).id is Some by {
                assert(shows(views[k], found[k]));
            }
            lemma_paid_total_of_views(views, found);
        }
        if !is_basket_paid(basket, &basket_payments) {
            return Err(BasketErrors::BasketUnpaid);
        }
        let basket_dto = match map_dto_basket_from_data_basket(basket, basket_payments) {
            Ok(basket_dto) => basket_dto,
            Err(e) => {
                return Err(e);
            },
        };
        proof {
            lemma_shown_basket_ids(basket_dto, *basket, views, found);
        }
        let ghost shown = basket_dto;
        match order_service.create_order(basket_dto) {
            Ok(order_id) => {
                proof {
                    assert(shows_basket(shown, stored_basket(self.baskets(), id), views));
                }
                Ok(order_id)
            },
            Err(e) => Err(BasketErrors::Unknown(e.to_string())),
        }
    }

    /// Purchases the basket with the given identifier at the current time.
    /// Where the purchase fails, nothing is recorded.
    pub fn purchase_basket(
        &self,
        payment_service: &PaymentService,
        order_service: &mut OrderService,
        basket_id: &str,
    ) -> (r: Result<String, BasketErrors>)
        ensures
            exists|now: i64|
                #[trigger] is_purchase_outcome(
                    r,
                    self.baskets(),
                    payment_service.payments(),
                    basket_id@,
                    old(order_service).orders(),
                    final(order_service).orders(),
                    now,
                ),
    {
        let now = get_current_time();
        let r = self.purchase_basket_at(payment_service, order_service, basket_id, now);
        proof {
            assert(is_purchase_outcome(
                r,
                self.baskets(),
                payment_service.payments(),
                basket_id@,
                old(order_service).orders(),
                order_service.orders(),
                now,
            ));
        }
        r
    }
}

/// Whether `position` is where the first basket with the identifier `id`
/// stands.
pub open spec fn is_basket_position(baskets: Seq<Basket>, id: ObjectId, position: int) -> bool {
    &&& 0 <= position < baskets.len()
    &&& baskets[position].id == Some(id)
    &&& forall|j: int| 0 <= j < position ==> (#[trigger] baskets[j]).id != Some(id)
}

/// Whether a basket with the identifier `id` is stored.
pub open spec fn has_basket(baskets: Seq<Basket>, id: ObjectId) -> bool {
    exists|position: int| #[trigger] is_basket_position(baskets, id, position)
}

/// The first stored basket with the identifier `id`.
pub open spec fn stored_basket(baskets: Seq<Basket>, id: ObjectId) -> Basket {
    baskets[choose|position: int| #[trigger] is_basket_position(baskets, id, position)]
}

/// The sum of the amounts of the stored payments that are paid.
pub open spec fn paid_amount(payments: Seq<Payment>) -> int
    decreases payments.len(),
{
    if payments.len() == 0 {
        0
    } else {
        paid_amount(payments.drop_last()) + if payments.last().status@ == PAYMENT_STATUS_PAID@ {
            payments.last().amount as int
        } else {
            0
        }
    }
}

/// Whether `views` shows the stored payments `payments`, one for one.
pub open spec fn are_views_of(views: Seq<PaymentView>, payments: Seq<Payment>) -> bool {
    &&& views.len() == payments.len()
    &&& forall|k: int| 0 <= k < views.len() ==> shows(#[trigger] views[k], payments[k])
}

/// Whether the identifiers of all units of a stored basket are well formed.
pub open spec fn units_well_formed(basket: Basket) -> bool {
    forall|i: int, j: int|
        0 <= i < basket.basket_items@.len() && 0 <= j
            < basket.basket_items@[i].basketed_inventories@.len() ==> parsed_object_id(
            (#[trigger] basket.basket_items@[i].basketed_inventories@[j]).inventory_id@,
        ) is Some && parsed_object_id(
            basket.basket_items@[i].basketed_inventories@[j].event_id@,
        ) is Some
}

/// Why a purchase fails.
pub enum PurchaseFailure {
    /// The text names no basket.
    MalformedId,
    /// No basket with the identifier is stored.
    NotFound,
    /// The basket's own expiry, or the reservation of one of its units, has
    /// passed.
    Expired,
    /// A payment of the basket has no identifier.
    PaymentWithoutId,
    /// The paid payments do not cover the price of the basket.
    Unpaid,
    /// The sum of the prices of the items is no price.
    PriceOutOfRange,
    /// A unit of the basket names a malformed identifier.
    MalformedUnit,
}

impl PurchaseFailure {
    /// Whether `error` reports the failure.
    pub open spec fn is_reported_by(self, error: BasketErrors) -> bool {
        match self {
            PurchaseFailure::MalformedId => error matches BasketErrors::Unknown(message)
                && message@ == MALFORMED_IDENTIFIER_MESSAGE@,
            PurchaseFailure::NotFound => error is BasketNotFound,
            PurchaseFailure::Expired => error is BasketExpired,
            PurchaseFailure::PaymentWithoutId => error matches BasketErrors::Unknown(message)
                && message@ == PAYMENT_WITHOUT_ID_MESSAGE@,
            PurchaseFailure::Unpaid => error is BasketUnpaid,
            PurchaseFailure::PriceOutOfRange => error matches BasketErrors::Unknown(message)
                && message@ == PRICE_OUT_OF_RANGE_MESSAGE@,
            PurchaseFailure::MalformedUnit => error matches BasketErrors::Unknown(message)
                && message@ == crate::orders::errors::MALFORMED_IDENTIFIER_MESSAGE@,
        }
    }
}

/// Why the purchase of the basket that `basket_id` names fails at `now`, if
/// it fails. The checks come in this order: the basket is named, stored and
/// valid; its payments can be shown and cover its price; its price and the
/// identifiers of its units can be recorded.
pub open spec fn purchase_failure(
    baskets: Seq<Basket>,
    payments: Seq<Payment>,
    basket_id: Seq<char>,
    now: i64,
) -> Option<PurchaseFailure> {
    match parsed_object_id(basket_id) {
        None => Some(PurchaseFailure::MalformedId),
        Some(id) => if !has_basket(baskets, id) {
            Some(PurchaseFailure::NotFound)
        } else {
            let basket = stored_basket(baskets, id);
            let found = payments_for_basket(payments, id);
            if !basket_valid(basket, now) {
                Some(PurchaseFailure::Expired)
            } else if exists|k: int| 0 <= k < found.len() && (#[trigger] found[k]).id is None {
                Some(PurchaseFailure::PaymentWithoutId)
            } else if paid_amount(found) < total_price(basket.basket_items@) {
                Some(PurchaseFailure::Unpaid)
            } else if !(i32::MIN <= total_price(basket.basket_items@) <= i32::MAX) {
                Some(PurchaseFailure::PriceOutOfRange)
            } else if !units_well_formed(basket) {
                Some(PurchaseFailure::MalformedUnit)
            } else {
                None
            }
        },
    }
}

/// The first basket with an identifier stands at one position only.
pub proof fn lemma_basket_position_unique(baskets: Seq<Basket>, id: ObjectId, position: int)
    requires
        is_basket_position(baskets, id, position),
    ensures
        has_basket(baskets, id),
        stored_basket(baskets, id) == baskets[position],
{
    let chosen = choose|p: int| #[trigger] is_basket_position(baskets, id, p);
    if chosen < position {
        assert(baskets[chosen].id != Some(id));
    }
    if position < chosen {
        assert(baskets[position].id != Some(id));
    }
}

/// Payments as they are shown are paid as much as they are stored.
pub proof fn lemma_paid_total_of_views(views: Seq<PaymentView>, payments: Seq<Payment>)
    requires
        are_views_of(views, payments),
    ensures
        paid_total(views) == paid_amount(payments),
    decreases views.len(),
{
    if views.len() > 0 {
        assert forall|k: int| 0 <= k < views.drop_last().len() implies shows(
            #[trigger] views.drop_last()[k],
            payments.drop_last()[k],
        ) by {
            assert(shows(views[k], payments[k]));
        }
        lemma_paid_total_of_views(views.drop_last(), payments.drop_last());
        assert(shows(views[views.len() - 1], payments[payments.len() - 1]));
    }
}

/// A shown basket names well-formed identifiers exactly when the units of
/// the stored basket do: the payments it shows always do.
pub proof fn lemma_shown_basket_ids(
    shown: BasketDto,
    stored: Basket,
    views: Seq<PaymentView>,
    payments: Seq<Payment>,
)
    requires
        shows_basket(shown, stored, views),
        are_views_of(views, payments),
    ensures
        basket_ids_well_formed(shown) == units_well_formed(stored),
{
    assert forall|k: int| 0 <= k < shown.payments@.len() implies parsed_object_id(
        (#[trigger] shown.payments@[k]).id@,
    ) is Some by {
        assert(shows_payment(shown.payments@[k], views[k]));
        assert(shows(views[k], payments[k]));
        crate::object_id::lemma_parse_to_hex_round_trip(payments[k].id.unwrap());
    }
    if units_well_formed(stored) {
        assert forall|i: int| 0 <= i < shown.basket_items@.len() implies item_ids_well_formed(
            #[trigger] shown.basket_items@[i],
        ) by {
            assert(shows_item(shown.basket_items@[i], stored.basket_items@[i]));
            assert forall|j: int|
                0 <= j < shown.basket_items@[i].basketed_inventories@.len()
                implies inventory_ids_well_formed(
                #[trigger] shown.basket_items@[i].basketed_inventories@[j],
            ) by {
                assert(shows_inventory(
                    shown.basket_items@[i].basketed_inventories@[j],
                    stored.basket_items@[i].basketed_inventories@[j],
                ));
            }
        }
    }
    if basket_ids_well_formed(shown) {
        assert forall|i: int, j: int|
            0 <= i < stored.basket_items@.len() && 0 <= j
                < stored.basket_items@[i].basketed_inventories@.len() implies parsed_object_id(
            (#[trigger] stored.basket_items@[i].basketed_inventories@[j]).inventory_id@,
        ) is Some && parsed_object_id(
            stored.basket_items@[i].basketed_inventories@[j].event_id@,
        ) is Some by {
            assert(shows_item(shown.basket_items@[i], stored.basket_items@[i]));
            assert(item_ids_well_formed(shown.basket_items@[i]));
            assert(shows_inventory(
                shown.basket_items@[i].basketed_inventories@[j],
                stored.basket_items@[i].basketed_inventories@[j],
            ));
            assert(inventory_ids_well_formed(shown.basket_items@[i].basketed_inventories@[j]));
        }
    }
}

} // verus!
