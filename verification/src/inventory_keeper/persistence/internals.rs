//! What a batch of status updates carries into its transaction.
use vstd::prelude::*;
use crate::inventory_keeper::models::InventoryUpdate;

verus! {

/// The updates of one batch, and the names of the database and collection
/// that they are meant for.
pub struct UpdateInventoriesContext<'a> {
    pub database: String,
    pub collecion: String,
    pub inventory_updates: &'a [InventoryUpdate],
}

} // verus!
