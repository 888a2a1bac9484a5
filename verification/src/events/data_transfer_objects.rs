//! The requests and replies of the event operations.
use vstd::prelude::*;
use crate::events::data_models::Event;
use crate::helpers::get_current_time;
use crate::object_id::encode_hex;
use crate::validation::{validation_result, ValidationError, ValidationErrors};

verus! {

/// A request to create an event. Times are in milliseconds since the Unix
/// epoch.
#[derive(Debug)]
pub struct CreateEvent {
    pub name: String,
    pub price: i32,
    pub start_sale_date_time: i64,
    pub end_sale_date_time: i64,
    pub start_date_time: i64,
    pub end_date_time: i64,
}

/// The rule on the dates of an event that a request breaks first, if it
/// breaks one: the event must not start after it ends, the sale must not
/// start after it ends, the sale must not start after the event does, and
/// the event must not start before `now`.
pub open spec fn date_violation(create_event: CreateEvent, now: i64) -> Option<ValidationError> {
    if create_event.start_date_time > create_event.end_date_time {
        Some(ValidationError::StartAfterEnd)
    } else if create_event.start_sale_date_time > create_event.end_sale_date_time {
        Some(ValidationError::StartSaleAfterEndSale)
    } else if create_event.start_sale_date_time > create_event.start_date_time {
        Some(ValidationError::StartSaleAfterStart)
    } else if create_event.start_date_time < now {
        Some(ValidationError::StartInThePast)
    } else {
        None
    }
}

/// Checks the dates of an event against each other and against `now`.
pub fn validate_create_event(create_event: &CreateEvent, now: i64) -> (r: Result<
    (),
    ValidationError,
>)
    ensures
        match date_violation(*create_event, now) {
            Some(e) => r == Err::<(), ValidationError>(e),
            None => r is Ok,
        },
{
    if create_event.start_date_time > create_event.end_date_time {
        return Err(ValidationError::StartAfterEnd);
    }
    if create_event.start_sale_date_time > create_event.end_sale_date_time {
        return Err(ValidationError::StartSaleAfterEndSale);
    }
    if create_event.start_sale_date_time > create_event.start_date_time {
        return Err(ValidationError::StartSaleAfterStart);
    }
    if create_event.start_date_time < now {
        return Err(ValidationError::StartInThePast);
    }
    Ok(())
}

impl CreateEvent {
    /// The rules that the request breaks at `now`: the name must not be
    /// empty, the price not negative, and the dates in order.
    pub open spec fn violations(&self, now: i64) -> Seq<ValidationError> {
        (if self.name@.len() < 1 {
            seq![ValidationError::NameEmpty]
        } else {
            seq![]
        }) + (if self.price < 0 {
            seq![ValidationError::PriceOutOfRange]
        } else {
            seq![]
        }) + (match date_violation(*self, now) {
            Some(e) => seq![e],
            None => seq![],
        })
    }

    /// Validates the request against the time `now`.
    pub fn validate_at(&self, now: i64) -> (r: Result<(), ValidationErrors>)
        ensures
            r is Ok <==> self.violations(now).len() == 0,
            r matches Err(e) ==> e.errors@ == self.violations(now),
    {
        let mut errors: Vec<ValidationError> = Vec::new();
        if self.name.as_str().is_empty() {
            errors.push(ValidationError::NameEmpty);
        }
        if self.price < 0 {
            errors.push(ValidationError::PriceOutOfRange);
        }
        match validate_create_event(self, now) {
            Ok(()) => {},
            Err(e) => {
                errors.push(e);
            },
        }
        assert(errors@ =~= self.violations(now));
        validation_result(errors)
    }

    /// Validates the request against the current time.
    pub fn validate(&self) -> (r: Result<(), ValidationErrors>)
        ensures
            exists|now: i64|
                (r is Ok <==> (#[trigger] self.violations(now)).len() == 0) && (r matches Err(e)
                    ==> e.errors@ == self.violations(now)),
    {
        let now = get_current_time();
        let r = self.validate_at(now);
        assert((r is Ok <==> self.violations(now).len() == 0) && (r matches Err(e) ==> e.errors@
            == self.violations(now)));
        r
    }
}

/// The receipt of a created event.
#[derive(Debug)]
pub struct CreateEventResult {
    pub id: String,
}

/// An event as it is shown.
#[derive(Debug)]
pub struct EventDetails {
    /// The identifier in its text form; empty where the event has none.
    pub id: String,
    pub name: String,
    pub price: i32,
    pub start_sale_date_time: i64,
    pub end_sale_date_time: i64,
    pub start_date_time: i64,
    pub end_date_time: i64,
}

impl EventDetails {
    /// Whether these are the details of `event`.
    pub open spec fn describes(&self, event: Event) -> bool {
        &&& self.id@ == match event.id {
            Some(id) => encode_hex(id@),
            None => Seq::<char>::empty(),
        }
        &&& self.name@ == event.name@
        &&& self.price == event.price
        &&& self.start_sale_date_time == event.start_sale_date_time
        &&& self.end_sale_date_time == event.end_sale_date_time
        &&& self.start_date_time == event.start_date_time
        &&& self.end_date_time == event.end_date_time
    }

    /// The details of a stored event.
    pub fn from(value: &Event) -> (r: EventDetails)
        ensures
            r.describes(*value),
    {
        let id = match value.id {
            Some(object_id) => object_id.to_hex(),
            None => String::new(),
        };
        EventDetails {
            id,
            name: value.name.clone(),
            price: value.price,
            start_sale_date_time: value.start_sale_date_time,
            end_sale_date_time: value.end_sale_date_time,
            start_date_time: value.start_date_time,
            end_date_time: value.end_date_time,
        }
    }
}

impl Clone for EventDetails {
    fn clone(&self) -> (r: Self)
        ensures
            r == *self,
    {
        EventDetails {
            id: self.id.clone(),
            name: self.name.clone(),
            price: self.price,
            start_sale_date_time: self.start_sale_date_time,
            end_sale_date_time: self.end_sale_date_time,
            start_date_time: self.start_date_time,
            end_date_time: self.end_date_time,
        }
    }
}

} // verus!
