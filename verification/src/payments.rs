//! Payments for baskets.
pub mod application;
pub mod constants;
pub mod data_models;
pub mod data_transfer_objects;
pub mod errors;
pub mod payment_providers;
pub mod persistence;
pub mod webhook_handlers;
