//! The reply to a checkout request.
use vstd::prelude::*;

verus! {

/// The checkout that the provider opened.
#[derive(Debug)]
pub struct CheckoutResponse {
    pub checkout_id: String,
    pub redirect_url: String,
}

} // verus!
