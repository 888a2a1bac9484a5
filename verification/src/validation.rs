//! Validation of request fields.
use vstd::prelude::*;

verus! {

/// A rule that a request broke.
#[derive(Clone, Copy, Debug, PartialEq, Eq, Structural)]
pub enum ValidationError {
    /// A text field that must not be empty is empty.
    EventIdEmpty,
    /// A text field that must not be empty is empty.
    NameEmpty,
    /// A text field that must not be empty is empty.
    BasketIdEmpty,
    /// A text field that must not be empty is empty.
    JwtEmpty,
    /// A quantity lies outside the range that the request allows.
    QuantityOutOfRange,
    /// The number of units to create is below one.
    NumberToCreateOutOfRange,
    /// A price is negative.
    PriceOutOfRange,
    /// The event starts after it ends.
    StartAfterEnd,
    /// The sale starts after it ends.
    StartSaleAfterEndSale,
    /// The sale starts after the event does.
    StartSaleAfterStart,
    /// The event starts in the past.
    StartInThePast,
}

/// The rules that a request broke, in the order of its fields, the rules
/// that span several fields last.
#[derive(Debug)]
pub struct ValidationErrors {
    pub errors: Vec<ValidationError>,
}

/// A request body that has passed validation.
#[derive(Debug)]
pub struct ValidatedJson<T>(pub T);

/// The outcome of a validation that found `errors`.
pub fn validation_result(errors: Vec<ValidationError>) -> (r: Result<(), ValidationErrors>)
    ensures
        r is Ok <==> errors@.len() == 0,
        r matches Err(e) ==> e.errors@ == errors@,
{
    if errors.len() == 0 {
        Ok(())
    } else {
        Err(ValidationErrors { errors })
    }
}

} // verus!
