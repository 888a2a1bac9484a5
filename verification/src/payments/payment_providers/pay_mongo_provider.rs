//! The PayMongo payment provider.
use vstd::prelude::*;
use vstd::string::StringExecFns;
use crate::baskets::data_transfer_objects::{Basket, BasketItem};
use crate::payments::constants::CURRENCY;
use crate::payments::data_models::CheckoutData;
use crate::payments::payment_providers::pay_mongo_provider::data_transfer_objects::checkout::request::{
    CheckoutRequest, LineItem,
};
use crate::payments::payment_providers::pay_mongo_provider::data_transfer_objects::checkout::response::CheckoutResult;

pub mod data_transfer_objects;

verus! {

pub const PAY_MONGO_PROVIDER_NAME: &'static str = "PayMongo";

pub const CHECKOUT_SESSIONS_PATH: &'static str = "v1/checkout_sessions";

/// How to reach the provider, and the payment methods to offer.
#[derive(Debug)]
pub struct PayMongoProvider {
    base_url: String,
    secret_base64: String,
    payment_method_types: Vec<String>,
}

/// The number of units of an item, as a line of a checkout counts them.
pub open spec fn line_quantity(units: nat) -> i32 {
    if units > i32::MAX {
        i32::MAX
    } else {
        units as i32
    }
}

/// Whether `line` is the line of a checkout request for `basket_item`: the
/// price of the item, the number of its units, and the name of its first
/// unit.
pub open spec fn is_line_for(line: LineItem, basket_item: BasketItem) -> bool {
    &&& basket_item.basketed_inventories@.len() > 0
    &&& line.currency@ == CURRENCY@
    &&& line.amount == basket_item.price
    &&& line.name@ == basket_item.basketed_inventories@[0].name@
    &&& line.quantity == line_quantity(basket_item.basketed_inventories@.len())
    &&& line.description@ == basket_item.basketed_inventories@[0].name@
}

/// The line of a checkout request for an item of a basket. An item without
/// units gives no line.
pub fn basekt_item_to_line_item(basket_item: &BasketItem) -> (r: Option<LineItem>)
    ensures
        r is Some <==> basket_item.basketed_inventories@.len() > 0,
        r matches Some(line) ==> is_line_for(line, *basket_item),
{
    if basket_item.basketed_inventories.len() == 0 {
        return None;
    }
    let units = basket_item.basketed_inventories.len();
    let quantity: i32 = if units > i32::MAX as usize {
        i32::MAX
    } else {
        units as i32
    };
    Some(
        LineItem::new(
            CURRENCY,
            basket_item.price,
            basket_item.basketed_inventories[0].name.as_str(),
            quantity,
            basket_item.basketed_inventories[0].name.as_str(),
        ),
    )
}

/// The items of `items` that have units, in order.
pub open spec fn items_with_units(items: Seq<BasketItem>) -> Seq<BasketItem>
    decreases items.len(),
{
    if items.len() == 0 {
        Seq::empty()
    } else {
        let before = items_with_units(items.drop_last());
        if items.last().basketed_inventories@.len() > 0 {
            before.push(items.last())
        } else {
            before
        }
    }
}

impl PayMongoProvider {
    /// The address of the provider.
    pub closed spec fn base_url(&self) -> Seq<char> {
        self.base_url@
    }

    /// The secret that requests to the provider are signed with.
    pub closed spec fn secret_base64(&self) -> Seq<char> {
        self.secret_base64@
    }

    /// The payment methods that a checkout offers.
    pub closed spec fn payment_method_types(&self) -> Seq<String> {
        self.payment_method_types@
    }

    pub fn new(base_url: String, secret_base64: String, payment_method_types: Vec<String>) -> (r:
        Self)
        ensures
            r.base_url() == base_url@,
            r.secret_base64() == secret_base64@,
            r.payment_method_types() == payment_method_types@,
    {
        PayMongoProvider { base_url, secret_base64, payment_method_types }
    }

    pub fn get_name(&self) -> (r: String)
        ensures
            r@ == PAY_MONGO_PROVIDER_NAME@,
    {
        PAY_MONGO_PROVIDER_NAME.to_owned()
    }

    /// The address that checkouts are opened at.
    pub fn checkout_sessions_url(&self) -> (r: String)
        ensures
            r@ == self.base_url() + seq!['/'] + CHECKOUT_SESSIONS_PATH@,
    {
        proof {
            reveal_strlit("/");
        }
        let slash = "/";
        assert(slash@ =~= seq!['/']);
        self.base_url.clone().concat(slash).concat(CHECKOUT_SESSIONS_PATH)
    }

    /// The authorization header of a request to the provider.
    pub fn authorization(&self) -> (r: String)
        ensures
            r@ == "Basic "@ + self.secret_base64(),
    {
        "Basic ".to_owned().concat(self.secret_base64.as_str())
    }

    /// The checkout request for a basket: one line for each item that has
    /// units, and the payment methods of the provider.
    pub fn checkout_request(&self, basket: &Basket) -> (r: CheckoutRequest)
        ensures
            r.data.attributes.line_items@.len() == items_with_units(basket.basket_items@).len(),
            forall|k: int|
                0 <= k < r.data.attributes.line_items@.len() ==> is_line_for(
                    #[trigger] r.data.attributes.line_items@[k],
                    items_with_units(basket.basket_items@)[k],
                ),
            r.data.attributes.payment_method_types@ == self.payment_method_types(),
            !r.data.attributes.send_email_receipt,
            !r.data.attributes.show_description,
            r.data.attributes.show_line_items,
    {
        let mut line_items: Vec<LineItem> = Vec::new();
        let mut i: usize = 0;
        while i < basket.basket_items.len()
            invariant
                i <= basket.basket_items@.len(),
                line_items@.len() == items_with_units(basket.basket_items@.take(i as int)).len(),
                forall|k: int|
                    0 <= k < line_items@.len() ==> is_line_for(
                        #[trigger] line_items@[k],
                        items_with_units(basket.basket_items@.take(i as int))[k],
                    ),
            decreases basket.basket_items@.len() - i,
        {
            proof {
                assert(basket.basket_items@.take(i + 1).drop_last() =~= basket.basket_items@.take(
                    i as int,
                ));
            }
            match basekt_item_to_line_item(&basket.basket_items[i]) {
                Some(line) => {
                    line_items.push(line);
                },
                None => {},
            }
            i += 1;
        }
        proof {
            assert(basket.basket_items@.take(i as int) =~= basket.basket_items@);
        }
        let mut methods: Vec<String> = Vec::new();
        let mut m: usize = 0;
        while m < self.payment_method_types.len()
            invariant
                m <= self.payment_method_types@.len(),
                methods@ == self.payment_method_types@.take(m as int),
            decreases self.payment_method_types@.len() - m,
        {
            methods.push(self.payment_method_types[m].clone());
            assert(methods@ =~= self.payment_method_types@.take(m + 1));
            m += 1;
        }
        proof {
            assert(self.payment_method_types@.take(m as int) =~= self.payment_method_types@);
        }
        CheckoutRequest::new(line_items, methods)
    }
}

/// Where to pay: the checkout that the provider's reply names.
pub fn checkout_data_of(result: CheckoutResult) -> (r: CheckoutData)
    ensures
        r.checkout_id == result.data.id,
        r.checkout_url == result.data.attributes.checkout_url,
{
    CheckoutData::new(result.data.id, result.data.attributes.checkout_url)
}

} // verus!
