//! Baskets: reserved units on their way to a purchase.
pub mod application;
pub mod basket_manager;
pub mod basket_repository;
pub mod data_models;
pub mod data_transfer_objects;
pub mod errors;
