//! The stored record of a payment.
use vstd::prelude::*;
use crate::object_id::ObjectId;

verus! {

/// Where to pay: the checkout that the provider opened.
#[derive(Debug)]
pub struct CheckoutData {
    pub checkout_id: String,
    pub checkout_url: String,
}

impl CheckoutData {
    pub fn new(checkout_id: String, checkout_url: String) -> (r: Self)
        ensures
            r.checkout_id == checkout_id,
            r.checkout_url == checkout_url,
    {
        CheckoutData { checkout_id, checkout_url }
    }
}

impl Clone for CheckoutData {
    fn clone(&self) -> (r: Self)
        ensures
            r == *self,
    {
        CheckoutData {
            checkout_id: self.checkout_id.clone(),
            checkout_url: self.checkout_url.clone(),
        }
    }
}

/// A payment for a basket.
#[derive(Debug)]
pub struct Payment {
    /// Given by the store when the payment is inserted.
    pub id: Option<ObjectId>,
    /// Replaced on every accepted update.
    pub concurrency_stamp: String,
    pub basket_id: Option<ObjectId>,
    pub amount: i32,
    pub currency: String,
    pub provider: String,
    pub status: String,
    /// Milliseconds since the Unix epoch.
    pub created_at: i64,
    pub payment_type: String,
    pub checkout_data: Option<CheckoutData>,
}

impl Payment {
    /// A payment that is not stored yet, under a newly generated stamp.
    pub fn new(
        basket_id: Option<ObjectId>,
        amount: i32,
        currency: String,
        provider: String,
        status: String,
        created_at: i64,
        payment_type: String,
        checkout_data: Option<CheckoutData>,
    ) -> (r: Self)
        ensures
            r == (Payment {
                id: None,
                concurrency_stamp: r.concurrency_stamp,
                basket_id,
                amount,
                currency,
                provider,
                status,
                created_at,
                payment_type,
                checkout_data,
            }),
    {
        Payment {
            id: None,
            concurrency_stamp: ObjectId::new().to_hex(),
            basket_id,
            amount,
            currency,
            provider,
            status,
            created_at,
            payment_type,
            checkout_data,
        }
    }
}

impl Clone for Payment {
    fn clone(&self) -> (r: Self)
        ensures
            r == *self,
    {
        Payment {
            id: self.id,
            concurrency_stamp: self.concurrency_stamp.clone(),
            basket_id: self.basket_id,
            amount: self.amount,
            currency: self.currency.clone(),
            provider: self.provider.clone(),
            status: self.status.clone(),
            created_at: self.created_at,
            payment_type: self.payment_type.clone(),
            checkout_data: match &self.checkout_data {
                Some(checkout_data) => Some(checkout_data.clone()),
                None => None,
            },
        }
    }
}

} // verus!
