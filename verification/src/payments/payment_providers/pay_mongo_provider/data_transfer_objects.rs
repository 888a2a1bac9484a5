//! What is exchanged with the PayMongo payment provider.
pub mod checkout;
