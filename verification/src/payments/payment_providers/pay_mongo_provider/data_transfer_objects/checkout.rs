//! The checkout exchange.
pub mod request;
pub mod response;
