//! The inventory keeper: the sweep that resolves every lapsed reservation to
//! `Sold` or back to `Available`, by the evidence of the stored orders.
pub mod application;
pub mod models;
pub mod persistence;
