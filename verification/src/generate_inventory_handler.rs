//! The generation worker: it creates the units of a generation request in
//! capped batches, counting the units already created before each batch.
pub mod generate_inventory;
pub mod model;
