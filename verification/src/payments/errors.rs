//! The failures of the payment operations.
use vstd::prelude::*;

verus! {

/// Why a payment operation failed.
#[derive(Clone, Copy, Debug, PartialEq, Eq, Structural)]
pub enum PaymentErrors {
    /// No payment belongs to the checkout.
    PaymentNotFound,
    /// The payment has no identifier, or no basket.
    MissingId,
    /// An identifier is not 24 hexadecimal digits.
    MalformedId,
    /// The stored payment no longer carries the stamp that the update was
    /// made with; nothing was written.
    UpdateFailed,
}

} // verus!
