//! The payment providers that open checkouts.
pub mod maya_provider;
pub mod pay_mongo_provider;
