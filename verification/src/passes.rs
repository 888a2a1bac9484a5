//! Passes: what a purchased unit admits with.
pub mod application;
pub mod data_models;
pub mod data_transfer_objects;
pub mod errors;
pub mod persistence;
