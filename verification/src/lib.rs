//! Inventory reservation and reconciliation for event passes.
pub mod baskets;
pub mod events;
pub mod generate_inventory_handler;
pub mod helpers;
pub mod inventories;
pub mod inventory_keeper;
pub mod laws;
pub mod ledger;
pub mod object_id;
pub mod orders;
pub mod passes;
pub mod payments;
pub mod validation;
