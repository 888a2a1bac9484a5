//! The order service: it turns a paid basket into a stored order
//! transaction, and shows stored order transactions.
use vstd::prelude::*;
use crate::baskets::data_transfer_objects::{
    Basket, BasketItem, BasketPayment, BasketedInventory,
};
use crate::helpers::{get_current_time, indexed, indexed_id};
use crate::object_id::{encode_hex, parsed_object_id, ObjectId};
use crate::orders::data_models::{
    OrderTransaction, OrderTransactionItem, OrderTransactionItemInventory,
    OrderTransactionItemInventoryView, OrderTransactionItemView, OrderTransactionPayment,
    OrderTransactionPaymentView, OrderTransactionView,
};
use crate::orders::data_transfer_objects::{
    OrderTransaction as OrderTransactionDto, OrderTransactionItem as OrderTransactionItemDto,
    OrderTransactionItemInventory as OrderTransactionItemInventoryDto,
    OrderTransactionPayment as OrderTransactionPaymentDto,
};
use crate::orders::errors::{
    OrderErrors, INVALID_ORIGINAL_ORDER_ID_MESSAGE, MALFORMED_IDENTIFIER_MESSAGE,
};
use crate::orders::persistence::{order_with, InMemoryOrderTransactionRepository};

verus! {

/// The kind of the transaction that records a purchase.
pub const TRANSACTION_TYPE_SALE: &'static str = "sale";

/// Whether the identifiers of a basketed unit are well formed.
pub open spec fn inventory_ids_well_formed(basketed: BasketedInventory) -> bool {
    parsed_object_id(basketed.inventory_id@) is Some && parsed_object_id(basketed.event_id@)
        is Some
}

/// Whether the identifiers of all units of a basket item are well formed.
pub open spec fn item_ids_well_formed(item: BasketItem) -> bool {
    forall|j: int|
        0 <= j < item.basketed_inventories@.len() ==> inventory_ids_well_formed(
            #[trigger] item.basketed_inventories@[j],
        )
}

/// Whether every identifier that a basket names, in its units and in its
/// payments, is well formed.
pub open spec fn basket_ids_well_formed(basket: Basket) -> bool {
    &&& forall|i: int|
        0 <= i < basket.basket_items@.len() ==> item_ids_well_formed(
            #[trigger] basket.basket_items@[i],
        )
    &&& forall|k: int|
        0 <= k < basket.payments@.len() ==> parsed_object_id(
            (#[trigger] basket.payments@[k]).id@,
        ) is Some
}

/// Whether `line` records the `j`-th unit of the item `item_id`, purchased
/// at `now`.
pub open spec fn records_inventory(
    line: OrderTransactionItemInventoryView,
    basketed: BasketedInventory,
    item_id: Seq<char>,
    j: int,
    now: i64,
) -> bool {
    &&& line.id == indexed(item_id, (j + 1) as nat)
    &&& Some(line.inventory_id) == parsed_object_id(basketed.inventory_id@)
    &&& Some(line.event_id) == parsed_object_id(basketed.event_id@)
    &&& line.name == basketed.name@
    &&& line.created_at == now
}

/// Whether `line` records the `i`-th item of the transaction `transaction`,
/// purchased at `now`.
pub open spec fn records_item(
    line: OrderTransactionItemView,
    item: BasketItem,
    transaction: Seq<char>,
    i: int,
    now: i64,
) -> bool {
    &&& line.id == indexed(transaction, (i + 1) as nat)
    &&& line.created_at == now
    &&& line.price == item.price
    &&& line.inventories.len() == item.basketed_inventories@.len()
    &&& forall|j: int|
        0 <= j < line.inventories.len() ==> records_inventory(
            #[trigger] line.inventories[j],
            item.basketed_inventories@[j],
            line.id,
            j,
            now,
        )
}

/// Whether `line` records a payment of the transaction `transaction`,
/// purchased at `now`. Every payment line is numbered one past the items.
pub open spec fn records_payment(
    line: OrderTransactionPaymentView,
    payment: BasketPayment,
    transaction: Seq<char>,
    items: nat,
    now: i64,
) -> bool {
    &&& line.id == indexed(transaction, items + 1)
    &&& Some(line.payment_id) == parsed_object_id(payment.id@)
    &&& line.amount == payment.amount
    &&& line.currency == payment.currency@
    &&& line.provider == payment.provider@
    &&& line.status == payment.status@
    &&& line.payment_type == payment.payment_type@
    &&& line.created_at == now
}

/// Whether `order` records the purchase of `basket` at `now`, as the
/// transaction `order_transaction_id` of the order `order_id`.
pub open spec fn records_basket(
    order: OrderTransactionView,
    basket: Basket,
    order_id: ObjectId,
    order_transaction_id: ObjectId,
    now: i64,
) -> bool {
    &&& order.id == order_transaction_id
    &&& order.order_id == order_id
    &&& order.transaction_type == TRANSACTION_TYPE_SALE@
    &&& order.basket_id == Some(basket.id@)
    &&& order.created_at == now
    &&& order.items.len() == basket.basket_items@.len()
    &&& forall|i: int|
        0 <= i < order.items.len() ==> records_item(
            #[trigger] order.items[i],
            basket.basket_items@[i],
            encode_hex(order_transaction_id@),
            i,
            now,
        )
    &&& order.payments.len() == basket.payments@.len()
    &&& forall|k: int|
        0 <= k < order.payments.len() ==> records_payment(
            #[trigger] order.payments[k],
            basket.payments@[k],
            encode_hex(order_transaction_id@),
            basket.basket_items@.len(),
            now,
        )
}

/// The failure of an identifier that could not be read.
fn malformed_identifier() -> (r: OrderErrors)
    ensures
        r.message() == MALFORMED_IDENTIFIER_MESSAGE@,
{
    OrderErrors::Unknown(MALFORMED_IDENTIFIER_MESSAGE.to_owned())
}

/// The line that records the `j`-th unit of an item.
fn build_order_inventory(basketed: &BasketedInventory, item_id: &str, j: usize, now: i64) -> (r:
    Result<OrderTransactionItemInventory, OrderErrors>)
    ensures
        r is Ok <==> inventory_ids_well_formed(*basketed),
        r matches Ok(line) ==> records_inventory(line@, *basketed, item_id@, j as int, now),
        r matches Err(e) ==> e.message() == MALFORMED_IDENTIFIER_MESSAGE@,
{
    let inventory_id = match ObjectId::parse_str(basketed.inventory_id.as_str()) {
        Ok(id) => id,
        Err(_) => {
            return Err(malformed_identifier());
        },
    };
    let event_id = match ObjectId::parse_str(basketed.event_id.as_str()) {
        Ok(id) => id,
        Err(_) => {
            return Err(malformed_identifier());
        },
    };
    Ok(
        OrderTransactionItemInventory {
            id: indexed_id(item_id, j as u128 + 1),
            inventory_id,
            event_id,
            name: basketed.name.clone(),
            created_at: now,
        },
    )
}

/// The line that records the `i`-th item of a transaction.
fn build_order_item(item: &BasketItem, transaction: &str, i: usize, now: i64) -> (r: Result<
    OrderTransactionItem,
    OrderErrors,
>)
    ensures
        r is Ok <==> item_ids_well_formed(*item),
        r matches Ok(line) ==> records_item(line@, *item, transaction@, i as int, now),
        r matches Err(e) ==> e.message() == MALFORMED_IDENTIFIER_MESSAGE@,
{
    let id = indexed_id(transaction, i as u128 + 1);
    let mut inventories: Vec<OrderTransactionItemInventory> = Vec::new();
    let mut j: usize = 0;
    while j < item.basketed_inventories.len()
        invariant
            j <= item.basketed_inventories@.len(),
            inventories@.len() == j,
            id@ == indexed(transaction@, (i + 1) as nat),
            forall|k: int|
                0 <= k < j ==> inventory_ids_well_formed(#[trigger] item.basketed_inventories@[k]),
            forall|k: int|
                0 <= k < j ==> records_inventory(
                    (#[trigger] inventories@[k])@,
                    item.basketed_inventories@[k],
                    id@,
                    k,
                    now,
                ),
        decreases item.basketed_inventories@.len() - j,
    {
        match build_order_inventory(&item.basketed_inventories[j], id.as_str(), j, now) {
            Ok(line) => {
                inventories.push(line);
            },
            Err(e) => {
                return Err(e);
            },
        }
        j += 1;
    }
    let line = OrderTransactionItem { id, created_at: now, price: item.price, inventories };
    proof {
        assert forall|k: int| 0 <= k < line@.inventories.len() implies records_inventory(
            #[trigger] line@.inventories[k],
            item.basketed_inventories@[k],
            line@.id,
            k,
            now,
        ) by {
            assert(line@.inventories[k] == line.inventories@[k]@);
        }
    }
    Ok(line)
}

/// The line that records a payment of a transaction with `items` items.
fn build_order_payment(payment: &BasketPayment, transaction: &str, items: usize, now: i64) -> (r:
    Result<OrderTransactionPayment, OrderErrors>)
    ensures
        r is Ok <==> parsed_object_id(payment.id@) is Some,
        r matches Ok(line) ==> records_payment(line@, *payment, transaction@, items as nat, now),
        r matches Err(e) ==> e.message() == MALFORMED_IDENTIFIER_MESSAGE@,
{
    let payment_id = match ObjectId::parse_str(payment.id.as_str()) {
        Ok(id) => id,
        Err(_) => {
            return Err(malformed_identifier());
        },
    };
    Ok(
        OrderTransactionPayment {
            id: indexed_id(transaction, items as u128 + 1),
            payment_id,
            amount: payment.amount,
            currency: payment.currency.clone(),
            provider: payment.provider.clone(),
            status: payment.status.clone(),
            payment_type: payment.payment_type.clone(),
            created_at: now,
        },
    )
}

/// The order transaction that records the purchase of `basket` at `now`.
/// Its lines are numbered from one after the text form of the transaction
/// identifier. Fails where an identifier that the basket names is
/// malformed.
pub fn build_order_transaction(
    basket: &Basket,
    order_id: ObjectId,
    order_transaction_id: ObjectId,
    now: i64,
) -> (r: Result<OrderTransaction, OrderErrors>)
    ensures
        r is Ok <==> basket_ids_well_formed(*basket),
        r matches Ok(order) ==> records_basket(
            order@,
            *basket,
            order_id,
            order_transaction_id,
            now,
        ),
        r matches Err(e) ==> e.message() == MALFORMED_IDENTIFIER_MESSAGE@,
{
    let transaction = order_transaction_id.to_hex();
    let mut items: Vec<OrderTransactionItem> = Vec::new();
    let mut i: usize = 0;
    while i < basket.basket_items.len()
        invariant
            i <= basket.basket_items@.len(),
            items@.len() == i,
            transaction@ == encode_hex(order_transaction_id@),
            forall|k: int| 0 <= k < i ==> item_ids_well_formed(#[trigger] basket.basket_items@[k]),
            forall|k: int|
                0 <= k < i ==> records_item(
                    (#[trigger] items@[k])@,
                    basket.basket_items@[k],
                    transaction@,
                    k,
                    now,
                ),
        decreases basket.basket_items@.len() - i,
    {
        match build_order_item(&basket.basket_items[i], transaction.as_str(), i, now) {
            Ok(line) => {
                items.push(line);
            },
            Err(e) => {
                return Err(e);
            },
        }
        i += 1;
    }
    let mut payments: Vec<OrderTransactionPayment> = Vec::new();
    let mut p: usize = 0;
    while p < basket.payments.len()
        invariant
            p <= basket.payments@.len(),
            payments@.len() == p,
            i == basket.basket_items@.len(),
            transaction@ == encode_hex(order_transaction_id@),
            forall|k: int|
                0 <= k < p ==> parsed_object_id((#[trigger] basket.payments@[k]).id@) is Some,
            forall|k: int|
                0 <= k < p ==> records_payment(
                    (#[trigger] payments@[k])@,
                    basket.payments@[k],
                    transaction@,
                    i as nat,
                    now,
                ),
        decreases basket.payments@.len() - p,
    {
        match build_order_payment(&basket.payments[p], transaction.as_str(), i, now) {
            Ok(line) => {
                payments.push(line);
            },
            Err(e) => {
                return Err(e);
            },
        }
        p += 1;
    }
    let order = OrderTransaction {
        id: order_transaction_id,
        order_id,
        transaction_type: TRANSACTION_TYPE_SALE.to_owned(),
        basket_id: Some(basket.id.clone()),
        items,
        payments,
        created_at: now,
    };
    proof {
        assert forall|k: int| 0 <= k < order@.items.len() implies records_item(
            #[trigger] order@.items[k],
            basket.basket_items@[k],
            encode_hex(order_transaction_id@),
            k,
            now,
        ) by {
            assert(order@.items[k] == order.items@[k]@);
        }
        assert forall|k: int| 0 <= k < order@.payments.len() implies records_payment(
            #[trigger] order@.payments[k],
            basket.payments@[k],
            encode_hex(order_transaction_id@),
            basket.basket_items@.len(),
            now,
        ) by {
            assert(order@.payments[k] == order.payments@[k]@);
        }
    }
    Ok(order)
}

/// Whether `shown` shows the line `line`.
pub open spec fn shows_order_inventory(
    shown: OrderTransactionItemInventoryDto,
    line: OrderTransactionItemInventoryView,
) -> bool {
    &&& shown.id@ == line.id
    &&& shown.inventory_id@ == encode_hex(line.inventory_id@)
    &&& shown.event_id@ == encode_hex(line.event_id@)
    &&& shown.name@ == line.name
    &&& shown.created_at == line.created_at
}

/// Whether `shown` shows the line `line`.
pub open spec fn shows_order_item(shown: OrderTransactionItemDto,
    line: OrderTransactionItemView) -> bool {
    &&& shown.id@ == line.id
    &&& shown.created_at == line.created_at
    &&& shown.price == line.price
    &&& shown.inventories@.len() == line.inventories.len()
    &&& forall|j: int|
        0 <= j < shown.inventories@.len() ==> shows_order_inventory(
            #[trigger] shown.inventories@[j],
            line.inventories[j],
        )
}

/// Whether `shown` shows the line `line`.
pub open spec fn shows_order_payment(
    shown: OrderTransactionPaymentDto,
    line: OrderTransactionPaymentView,
) -> bool {
    &&& shown.id@ == line.id
    &&& shown.payment_id@ == encode_hex(line.payment_id@)
    &&& shown.amount == line.amount
    &&& shown.currency@ == line.currency
    &&& shown.provider@ == line.provider
    &&& shown.status@ == line.status
    &&& shown.payment_type@ == line.payment_type
    &&& shown.created_at == line.created_at
}

/// Whether `shown` shows the order transaction `order`.
pub open spec fn shows_order(shown: OrderTransactionDto, order: OrderTransactionView) -> bool {
    &&& shown.id@ == encode_hex(order.id@)
    &&& shown.order_id@ == encode_hex(order.order_id@)
    &&& shown.transaction_type@ == order.transaction_type
    &&& match order.basket_id {
        Some(basket_id) => shown.basket_id matches Some(text) && text@ == basket_id,
        None => shown.basket_id is None,
    }
    &&& shown.created_at == order.created_at
    &&& shown.items@.len() == order.items.len()
    &&& forall|i: int|
        0 <= i < shown.items@.len() ==> shows_order_item(#[trigger] shown.items@[i], order.items[i])
    &&& shown.payments@.len() == order.payments.len()
    &&& forall|k: int|
        0 <= k < shown.payments@.len() ==> shows_order_payment(
            #[trigger] shown.payments@[k],
            order.payments[k],
        )
}

/// A unit line as it is shown.
pub fn mpa_order_transaction_item_inventory_to_dto(
    order_transaction_item_inventory: &OrderTransactionItemInventory,
) -> (r: OrderTransactionItemInventoryDto)
    ensures
        shows_order_inventory(r, order_transaction_item_inventory@),
{
    OrderTransactionItemInventoryDto {
        id: order_transaction_item_inventory.id.clone(),
        inventory_id: order_transaction_item_inventory.inventory_id.to_hex(),
        event_id: order_transaction_item_inventory.event_id.to_hex(),
        name: order_transaction_item_inventory.name.clone(),
        created_at: order_transaction_item_inventory.created_at,
    }
}

/// An item line as it is shown.
pub fn mpa_order_transaction_item_to_dto(order_transaction_item: &OrderTransactionItem) -> (r:
    OrderTransactionItemDto)
    ensures
        shows_order_item(r, order_transaction_item@),
{
    let mut inventories: Vec<OrderTransactionItemInventoryDto> = Vec::new();
    let mut j: usize = 0;
    while j < order_transaction_item.inventories.len()
        invariant
            j <= order_transaction_item.inventories@.len(),
            inventories@.len() == j,
            forall|k: int|
                0 <= k < j ==> shows_order_inventory(
                    #[trigger] inventories@[k],
                    order_transaction_item@.inventories[k],
                ),
        decreases order_transaction_item.inventories@.len() - j,
    {
        inventories.push(
            mpa_order_transaction_item_inventory_to_dto(&order_transaction_item.inventories[j]),
        );
        proof {
            assert(order_transaction_item@.inventories[j as int]
                == order_transaction_item.inventories@[j as int]@);
        }
        j += 1;
    }
    OrderTransactionItemDto {
        id: order_transaction_item.id.clone(),
        created_at: order_transaction_item.created_at,
        price: order_transaction_item.price,
        inventories,
    }
}

/// A payment line as it is shown.
pub fn mpa_order_transaction_payment_to_dto(
    order_transaction_payment: &OrderTransactionPayment) -> (r:
    OrderTransactionPaymentDto)
    ensures
        shows_order_payment(r, order_transaction_payment@),
{
    OrderTransactionPaymentDto {
        id: order_transaction_payment.id.clone(),
        payment_id: order_transaction_payment.payment_id.to_hex(),
        amount: order_transaction_payment.amount,
        currency: order_transaction_payment.currency.clone(),
        provider: order_transaction_payment.provider.clone(),
        status: order_transaction_payment.status.clone(),
        payment_type: order_transaction_payment.payment_type.clone(),
        created_at: order_transaction_payment.created_at,
    }
}

/// An order transaction as it is shown.
pub fn mpa_order_transaction_to_dto(order_transaction: OrderTransaction) -> (r: OrderTransactionDto)
    ensures
        shows_order(r, order_transaction@),
{
    let mut items: Vec<OrderTransactionItemDto> = Vec::new();
    let mut i: usize = 0;
    while i < order_transaction.items.len()
        invariant
            i <= order_transaction.items@.len(),
            items@.len() == i,
            forall|k: int|
                0 <= k < i ==> shows_order_item(#[trigger] items@[k], order_transaction@.items[k]),
        decreases order_transaction.items@.len() - i,
    {
        items.push(mpa_order_transaction_item_to_dto(&order_transaction.items[i]));
        proof {
            assert(order_transaction@.items[i as int] == order_transaction.items@[i as int]@);
        }
        i += 1;
    }
    let mut payments: Vec<OrderTransactionPaymentDto> = Vec::new();
    let mut p: usize = 0;
    while p < order_transaction.payments.len()
        invariant
            p <= order_transaction.payments@.len(),
            payments@.len() == p,
            forall|k: int|
                0 <= k < p ==> shows_order_payment(
                    #[trigger] payments@[k],
                    order_transaction@.payments[k],
                ),
        decreases order_transaction.payments@.len() - p,
    {
        payments.push(mpa_order_transaction_payment_to_dto(&order_transaction.payments[p]));
        proof {
            assert(order_transaction@.payments[p as int] == order_transaction.payments@[p as int]@);
        }
        p += 1;
    }
    OrderTransactionDto {
        id: order_transaction.id.to_hex(),
        order_id: order_transaction.order_id.to_hex(),
        transaction_type: order_transaction.transaction_type.clone(),
        basket_id: match &order_transaction.basket_id {
            Some(basket_id) => Some(basket_id.clone()),
            None => None,
        },
        items,
        payments,
        created_at: order_transaction.created_at,
    }
}

/// The order that the purchase of `basket` is recorded under: the order
/// that the basket continues, where it names one, else `order_id`.
pub open spec fn recorded_order(basket: Basket, order_id: ObjectId) -> Option<ObjectId> {
    match basket.original_order_id {
        Some(text) => parsed_object_id(text@),
        None => Some(order_id),
    }
}

/// The order transaction that records the purchase of `basket` at `now` as
/// the transaction `order_transaction_id`, of the order that the basket
/// continues or else of the order `order_id`. Fails where the basket names
/// an order or another identifier that is malformed.
pub fn order_for_purchase(
    basket: &Basket,
    order_id: ObjectId,
    order_transaction_id: ObjectId,
    now: i64,
) -> (r: Result<OrderTransaction, OrderErrors>)
    ensures
        match recorded_order(*basket, order_id) {
            None => r matches Err(e) && e.message() == INVALID_ORIGINAL_ORDER_ID_MESSAGE@,
            Some(recorded) => if !basket_ids_well_formed(*basket) {
                r matches Err(e) && e.message() == MALFORMED_IDENTIFIER_MESSAGE@
            } else {
                r matches Ok(order) && order.order_id == recorded && records_basket(
                    order@,
                    *basket,
                    recorded,
                    order_transaction_id,
                    now,
                )
            },
        },
{
    let recorded = match &basket.original_order_id {
        Some(text) => match ObjectId::parse_str(text.as_str()) {
            Ok(id) => id,
            Err(_) => {
                return Err(OrderErrors::Unknown(INVALID_ORIGINAL_ORDER_ID_MESSAGE.to_owned()));
            },
        },
        None => order_id,
    };
    build_order_transaction(basket, recorded, order_transaction_id, now)
}

/// The order service. It holds the store of order transactions.
#[derive(Debug)]
pub struct OrderService {
    pub order_transaction_repository: InMemoryOrderTransactionRepository,
}

impl OrderService {
    /// The stored order transactions.
    pub open spec fn orders(&self) -> Seq<OrderTransactionView> {
        self.order_transaction_repository.orders()
    }

    pub fn new(order_transaction_repository: InMemoryOrderTransactionRepository) -> (r: Self)
        ensures
            r.order_transaction_repository == order_transaction_repository,
    {
        OrderService { order_transaction_repository }
    }

    /// Shows the stored order transaction with the identifier that the text
    /// spells. There is none where the text spells no identifier.
    pub fn get_order_transactions(&self, order_transaction_id: String) -> (r: Option<
        OrderTransactionDto,
    >)
        ensures
            match parsed_object_id(order_transaction_id@) {
                None => r is None,
                Some(id) => match order_with(self.orders(), id) {
                    None => r is None,
                    Some(order) => r matches Some(shown) && shows_order(shown, order),
                },
            },
    {
        let object_id = match ObjectId::parse_str(order_transaction_id.as_str()) {
            Ok(object_id) => object_id,
            Err(_) => {
                return None;
            },
        };
        match self.order_transaction_repository.get(object_id) {
            Some(order_transaction) => Some(mpa_order_transaction_to_dto(order_transaction)),
            None => None,
        }
    }

    /// Records the purchase of a basket at `now` as the transaction
    /// `order_transaction_id` of the order `order_id`, and returns the text
    /// form of the order identifier. Where the basket names the order it
    /// continues, that order is recorded instead of `order_id`. Fails,
    /// storing nothing, where an identifier that the basket names is
    /// malformed.
    pub fn create_order_at(
        &mut self,
        basket: &Basket,
        order_id: ObjectId,
        order_transaction_id: ObjectId,
        now: i64,
    ) -> (r: Result<String, OrderErrors>)
        ensures
            match basket.original_order_id {
                Some(text) if parsed_object_id(text@) is None => r matches Err(e) && e.message()
                    == INVALID_ORIGINAL_ORDER_ID_MESSAGE@ && final(self).orders() == old(
                        self).orders(),
                _ => if !basket_ids_well_formed(*basket) {
                    r matches Err(e) && e.message() == MALFORMED_IDENTIFIER_MESSAGE@ && final(
                        self).orders() == old(self).orders()
                } else {
                    let recorded = match basket.original_order_id {
                        Some(text) => parsed_object_id(text@).unwrap(),
                        None => order_id,
                    };
                    &&& r matches Ok(text) && text@ == encode_hex(recorded@)
                    &&& final(self).orders().len() == old(self).orders().len() + 1
                    &&& final(self).orders().drop_last() == old(self).orders()
                    &&& records_basket(
                        final(self).orders().last(),
                        *basket,
                        recorded,
                        order_transaction_id,
                        now,
                    )
                },
            },
    {
        let order_transaction = match order_for_purchase(
            basket,
            order_id,
            order_transaction_id,
            now,
        ) {
            Ok(order_transaction) => order_transaction,
            Err(e) => {
                return Err(e);
            },
        };
        let recorded = order_transaction.order_id;
        self.order_transaction_repository.save(&order_transaction);
        proof {
            assert(self.orders().drop_last() =~= old(self).orders());
        }
        Ok(recorded.to_hex())
    }

    /// Records the purchase of a basket, at the current time and under newly
    /// generated identifiers, and returns the text form of the order
    /// identifier. Fails, storing nothing, where an identifier that the
    /// basket names is malformed.
    pub fn create_order(&mut self, basket: Basket) -> (r: Result<String, OrderErrors>)
        ensures
            match basket.original_order_id {
                Some(text) if parsed_object_id(text@) is None => r matches Err(e) && e.message()
                    == INVALID_ORIGINAL_ORDER_ID_MESSAGE@ && final(self).orders() == old(
                        self).orders(),
                _ => if !basket_ids_well_formed(basket) {
                    r matches Err(e) && e.message() == MALFORMED_IDENTIFIER_MESSAGE@ && final(
                        self).orders() == old(self).orders()
                } else {
                    &&& r matches Ok(text) && parsed_object_id(text@) matches Some(recorded)
                        && (basket.original_order_id matches Some(original) ==> parsed_object_id(
                        original@,
                    ) == Some(recorded))
                    &&& final(self).orders().len() == old(self).orders().len() + 1
                    &&& final(self).orders().drop_last() == old(self).orders()
                    &&& records_basket(
                        final(self).orders().last(),
                        basket,
                        parsed_object_id(r.unwrap()@).unwrap(),
                        final(self).orders().last().id,
                        final(self).orders().last().created_at,
                    )
                },
            },
    {
        let order_id = ObjectId::new();
        let order_transaction_id = ObjectId::new();
        let now = get_current_time();
        let r = self.create_order_at(&basket, order_id, order_transaction_id, now);
        proof {
            if r is Ok {
                let recorded = match basket.original_order_id {
                    Some(text) => parsed_object_id(text@).unwrap(),
                    None => order_id,
                };
                crate::object_id::lemma_parse_to_hex_round_trip(recorded);
            }
        }
        r
    }
}

} // verus!
