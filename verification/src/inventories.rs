//! Inventory units of an event: the records, the requests, the repository
//! on top of the ledger, and the service that generates and reserves units.
pub mod application;
pub mod constants;
pub mod data_models;
pub mod data_transfer_objects;
pub mod errors;
pub mod inventory_repository;
