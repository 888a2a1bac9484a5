//! The failures of the inventory operations.
use vstd::prelude::*;
use vstd::string::StringExecFns;
use crate::helpers::{decimal, decimal_string};
use crate::ledger::LedgerError;

verus! {

/// Why an inventory operation failed.
#[derive(Clone, Copy, Debug, PartialEq, Eq, Structural)]
pub enum InventoryError {
    /// An identifier in the request is not 24 hexadecimal digits. Nothing
    /// was read from or written to the ledger.
    MalformedId,
    /// The number of units to create is below one.
    InvalidQuantity,
    /// Fewer units than requested are free. Nothing was reserved.
    InsufficientInventory { requested: i32, found: usize },
    /// The ledger could not apply the batch; none of it was applied.
    TransactionAborted,
    /// The ledger already holds a record under a generated identifier.
    DuplicateKey,
    /// The generation request is not stored.
    GenerateInventoryNotFound,
}

pub const MALFORMED_IDENTIFIER_MESSAGE: &'static str = "Malformed identifier";

pub const INVALID_QUANTITY_MESSAGE: &'static str = "Invalid quantity";

pub const NOT_ENOUGH_INVENTORIES_MESSAGE: &'static str = "Not enough inventories: ";

pub const TRANSACTION_ABORTED_MESSAGE: &'static str = "Transaction aborted";

pub const DUPLICATE_KEY_MESSAGE: &'static str = "Duplicate key";

pub const GENERATE_INVENTORY_NOT_FOUND_MESSAGE: &'static str = "GenerateInventory not found";

impl InventoryError {
    /// The message of the failure. An insufficient inventory names the
    /// number of units that were found.
    pub open spec fn message(&self) -> Seq<char> {
        match self {
            InventoryError::MalformedId => MALFORMED_IDENTIFIER_MESSAGE@,
            InventoryError::InvalidQuantity => INVALID_QUANTITY_MESSAGE@,
            InventoryError::InsufficientInventory { requested, found } =>
                NOT_ENOUGH_INVENTORIES_MESSAGE@ + decimal(*found as nat),
            InventoryError::TransactionAborted => TRANSACTION_ABORTED_MESSAGE@,
            InventoryError::DuplicateKey => DUPLICATE_KEY_MESSAGE@,
            InventoryError::GenerateInventoryNotFound => GENERATE_INVENTORY_NOT_FOUND_MESSAGE@,
        }
    }

    pub fn to_string(&self) -> (r: String)
        ensures
            r@ == self.message(),
    {
        match self {
            InventoryError::MalformedId => MALFORMED_IDENTIFIER_MESSAGE.to_owned(),
            InventoryError::InvalidQuantity => INVALID_QUANTITY_MESSAGE.to_owned(),
            InventoryError::InsufficientInventory { requested, found } =>
                NOT_ENOUGH_INVENTORIES_MESSAGE.to_owned().concat(
                    decimal_string(*found as u128).as_str(),
                ),
            InventoryError::TransactionAborted => TRANSACTION_ABORTED_MESSAGE.to_owned(),
            InventoryError::DuplicateKey => DUPLICATE_KEY_MESSAGE.to_owned(),
            InventoryError::GenerateInventoryNotFound =>
                GENERATE_INVENTORY_NOT_FOUND_MESSAGE.to_owned(),
        }
    }

    /// The failure of the service that a failure of the ledger amounts to.
    pub open spec fn of_ledger(e: LedgerError) -> InventoryError {
        match e {
            LedgerError::DuplicateKey => InventoryError::DuplicateKey,
            LedgerError::TransactionAborted => InventoryError::TransactionAborted,
        }
    }

    pub fn from_ledger(e: LedgerError) -> (r: InventoryError)
        ensures
            r == Self::of_ledger(e),
    {
        match e {
            LedgerError::DuplicateKey => InventoryError::DuplicateKey,
            LedgerError::TransactionAborted => InventoryError::TransactionAborted,
        }
    }
}

} // verus!
