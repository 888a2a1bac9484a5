//! The failures of the order operations.
use vstd::prelude::*;

verus! {

pub const INVALID_ORIGINAL_ORDER_ID_MESSAGE: &'static str = "Invalid Original Order Id";

pub const MALFORMED_IDENTIFIER_MESSAGE: &'static str = "Malformed identifier";

/// The status of a reply to a request that failed on the way.
pub const STATUS_INTERNAL_SERVER_ERROR: u16 = 500;

/// Why an order operation failed.
#[derive(Debug)]
pub enum OrderErrors {
    /// Any failure, with its message.
    Unknown(String),
}

impl OrderErrors {
    /// The message of the failure.
    pub open spec fn message(&self) -> Seq<char> {
        match self {
            OrderErrors::Unknown(message) => message@,
        }
    }

    pub fn to_string(&self) -> (r: String)
        ensures
            r@ == self.message(),
    {
        match self {
            OrderErrors::Unknown(message) => message.clone(),
        }
    }
}

/// A failure of an order operation on its way into a reply.
#[derive(Debug)]
pub struct OrderError {
    pub error: OrderErrors,
}

impl OrderError {
    /// The status and the text of the reply that reports the failure.
    pub fn into_response(self) -> (r: (u16, String))
        ensures
            r.0 == STATUS_INTERNAL_SERVER_ERROR,
            r.1@ == self.error.message(),
    {
        (STATUS_INTERNAL_SERVER_ERROR, self.error.to_string())
    }
}

} // verus!
