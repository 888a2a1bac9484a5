//! The checkout exchange.
pub mod response;
