//! Events: what passes are sold for.
pub mod application;
pub mod data_models;
pub mod data_transfer_objects;
pub mod event_repository;
