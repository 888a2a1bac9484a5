//! What is exchanged with the Maya payment provider.
pub mod checkout;
