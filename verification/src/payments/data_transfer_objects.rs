//! The requests and replies of the payment operations.
use vstd::prelude::*;
use crate::validation::{validation_result, ValidationError, ValidationErrors};

pub mod maya_webhook;

verus! {

/// A request to check a basket out.
#[derive(Debug)]
pub struct CheckoutRequest {
    pub basket_id: String,
}

impl CheckoutRequest {
    /// The rules that the request breaks: the basket must be named.
    pub open spec fn violations(&self) -> Seq<ValidationError> {
        if self.basket_id@.len() < 1 {
            seq![ValidationError::BasketIdEmpty]
        } else {
            seq![]
        }
    }

    pub fn validate(&self) -> (r: Result<(), ValidationErrors>)
        ensures
            r is Ok <==> self.violations().len() == 0,
            r matches Err(e) ==> e.errors@ == self.violations(),
    {
        let mut errors: Vec<ValidationError> = Vec::new();
        if self.basket_id.as_str().is_empty() {
            errors.push(ValidationError::BasketIdEmpty);
        }
        assert(errors@ =~= self.violations());
        validation_result(errors)
    }
}

/// Where to pay for a basket.
#[derive(Debug)]
pub struct CheckoutResponse {
    pub checkout_id: String,
    pub checkout_url: String,
}

impl CheckoutResponse {
    pub fn new(checkout_id: String, checkout_url: String) -> (r: Self)
        ensures
            r.checkout_id == checkout_id,
            r.checkout_url == checkout_url,
    {
        CheckoutResponse { checkout_id, checkout_url }
    }
}

/// A payment as it is shown.
#[derive(Debug)]
pub struct PaymentView {
    pub id: String,
    pub concurrency_stamp: String,
    pub basket_id: String,
    pub amount: i32,
    pub currency: String,
    pub provider: String,
    pub status: String,
    /// Milliseconds since the Unix epoch.
    pub created_at: i64,
    pub payment_type: String,
}

} // verus!
