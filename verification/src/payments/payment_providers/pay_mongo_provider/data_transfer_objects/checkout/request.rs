//! The request for a checkout.
use vstd::prelude::*;

verus! {

pub const CHECKOUT_DESCRIPTION: &'static str = "Pass";

#[derive(Debug)]
pub struct CheckoutRequest {
    pub data: Data,
}

impl CheckoutRequest {
    /// A request that shows its lines, and neither a description nor an
    /// email receipt.
    pub fn new(line_items: Vec<LineItem>, payment_method_types: Vec<String>) -> (r: CheckoutRequest)
        ensures
            r.data.attributes.line_items == line_items,
            r.data.attributes.payment_method_types == payment_method_types,
            !r.data.attributes.send_email_receipt,
            !r.data.attributes.show_description,
            r.data.attributes.show_line_items,
            r.data.attributes.description@ == CHECKOUT_DESCRIPTION@,
    {
        CheckoutRequest {
            data: Data {
                attributes: Attributes {
                    send_email_receipt: false,
                    show_description: false,
                    show_line_items: true,
                    line_items,
                    payment_method_types,
                    description: CHECKOUT_DESCRIPTION.to_owned(),
                },
            },
        }
    }
}

#[derive(Debug)]
pub struct Data {
    pub attributes: Attributes,
}

#[derive(Debug)]
pub struct Attributes {
    pub send_email_receipt: bool,
    pub show_description: bool,
    pub show_line_items: bool,
    pub line_items: Vec<LineItem>,
    pub payment_method_types: Vec<String>,
    pub description: String,
}

/// One line of a checkout.
#[derive(Debug)]
pub struct LineItem {
    pub currency: String,
    pub amount: i32,
    pub name: String,
    pub quantity: i32,
    pub description: String,
}

impl LineItem {
    pub fn new(currency: &str, amount: i32, name: &str, quantity: i32, description: &str) -> (r:
        LineItem)
        ensures
            r.currency@ == currency@,
            r.amount == amount,
            r.name@ == name@,
            r.quantity == quantity,
            r.description@ == description@,
    {
        LineItem {
            currency: currency.to_owned(),
            amount,
            name: name.to_owned(),
            quantity,
            description: description.to_owned(),
        }
    }
}

} // verus!
