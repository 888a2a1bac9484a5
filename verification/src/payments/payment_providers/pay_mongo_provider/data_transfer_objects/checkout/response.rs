//! The reply to a checkout request.
use vstd::prelude::*;

verus! {

#[derive(Debug)]
pub struct CheckoutResult {
    pub data: CheckoutData,
}

/// The checkout that the provider opened.
#[derive(Debug)]
pub struct CheckoutData {
    pub id: String,
    pub data_type: String,
    pub attributes: Attributes,
}

#[derive(Debug)]
pub struct Attributes {
    pub checkout_url: String,
}

} // verus!
