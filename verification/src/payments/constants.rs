//! Names of the payment states and kinds as they are written in stored
//! records.
use vstd::prelude::*;

verus! {

pub const PAYMENT_STATUS_PENDING: &'static str = "pending";

pub const PAYMENT_STATUS_PAID: &'static str = "paid";

pub const PAYMENT_TYPE_CHECKOUT: &'static str = "checkout";

pub const CURRENCY: &'static str = "PHP";

/// The state of a checkout notification that reports a successful payment.
pub const WEBHOOK_STATUS_PAYMENT_SUCCESS: &'static str = "PAYMENT_SUCCESS";

} // verus!
