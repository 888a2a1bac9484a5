//! The failures of the basket operations.
use vstd::prelude::*;

verus! {

pub const BASKET_NOT_FOUND_MESSAGE: &'static str = "Basket not found.";

pub const BASKET_EXPIRED_MESSAGE: &'static str = "Basket is expired.";

pub const BASKET_UNPAID_MESSAGE: &'static str = "Basket is unpaid.";

/// The status of a reply to a request that cannot be served as it is.
pub const STATUS_BAD_REQUEST: u16 = 400;

/// The status of a reply to a request that failed on the way.
pub const STATUS_INTERNAL_SERVER_ERROR: u16 = 500;

/// Why a basket operation failed.
#[derive(Debug)]
pub enum BasketErrors {
    BasketNotFound,
    BasketExpired,
    BasketUnpaid,
    /// Any other failure, with its message.
    Unknown(String),
}

impl BasketErrors {
    /// The message of the failure.
    pub open spec fn message(&self) -> Seq<char> {
        match self {
            BasketErrors::BasketNotFound => BASKET_NOT_FOUND_MESSAGE@,
            BasketErrors::BasketExpired => BASKET_EXPIRED_MESSAGE@,
            BasketErrors::BasketUnpaid => BASKET_UNPAID_MESSAGE@,
            BasketErrors::Unknown(message) => message@,
        }
    }

    /// The status of the reply that reports the failure.
    pub open spec fn status(&self) -> u16 {
        match self {
            BasketErrors::Unknown(_) => STATUS_INTERNAL_SERVER_ERROR,
            _ => STATUS_BAD_REQUEST,
        }
    }

    pub fn to_string(&self) -> (r: String)
        ensures
            r@ == self.message(),
    {
        match self {
            BasketErrors::BasketNotFound => BASKET_NOT_FOUND_MESSAGE.to_owned(),
            BasketErrors::BasketExpired => BASKET_EXPIRED_MESSAGE.to_owned(),
            BasketErrors::BasketUnpaid => BASKET_UNPAID_MESSAGE.to_owned(),
            BasketErrors::Unknown(message) => message.clone(),
        }
    }
}

/// A failure of a basket operation on its way into a reply.
#[derive(Debug)]
pub struct BasketError {
    pub error: BasketErrors,
}

impl BasketError {
    /// The status and the text of the reply that reports the failure.
    pub fn into_response(self) -> (r: (u16, String))
        ensures
            r.0 == self.error.status(),
            r.1@ == self.error.message(),
    {
        let text = self.error.to_string();
        match self.error {
            BasketErrors::Unknown(_) => (STATUS_INTERNAL_SERVER_ERROR, text),
            _ => (STATUS_BAD_REQUEST, text),
        }
    }
}

} // verus!
