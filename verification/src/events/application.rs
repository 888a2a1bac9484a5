//! The event service.
use vstd::prelude::*;
use crate::events::data_models::Event;
use crate::events::data_transfer_objects::{CreateEvent, CreateEventResult, EventDetails};
use crate::events::event_repository::{event_with, InMemoryEventRepository, EVENT_LIST_LIMIT};
use crate::object_id::{encode_hex, parsed_object_id, ObjectIdError};

verus! {

/// The event that a request asks for, without an identifier yet.
pub fn map_event(data: CreateEvent) -> (r: Event)
    ensures
        r == (Event {
            id: None,
            name: data.name,
            price: data.price,
            start_sale_date_time: data.start_sale_date_time,
            end_sale_date_time: data.end_sale_date_time,
            start_date_time: data.start_date_time,
            end_date_time: data.end_date_time,
        }),
{
    Event {
        id: None,
        name: data.name,
        price: data.price,
        start_sale_date_time: data.start_sale_date_time,
        end_sale_date_time: data.end_sale_date_time,
        start_date_time: data.start_date_time,
        end_date_time: data.end_date_time,
    }
}

/// The event service. It holds the store of events.
#[derive(Debug)]
pub struct EventService {
    pub event_repository: InMemoryEventRepository,
}

impl EventService {
    /// The stored events.
    pub open spec fn events(&self) -> Seq<Event> {
        self.event_repository.events@
    }

    pub fn new(event_repository: InMemoryEventRepository) -> (r: Self)
        ensures
            r.event_repository == event_repository,
    {
        EventService { event_repository }
    }

    /// Stores the event that a request asks for and returns its receipt.
    pub fn create_event(&mut self, data: CreateEvent) -> (r: CreateEventResult)
        ensures
            final(self).events().len() == old(self).events().len() + 1,
            final(self).events().drop_last() == old(self).events(),
            final(self).events().last().id matches Some(id) && r.id@ == encode_hex(id@),
            final(self).events().last() == (Event {
                id: final(self).events().last().id,
                name: data.name,
                price: data.price,
                start_sale_date_time: data.start_sale_date_time,
                end_sale_date_time: data.end_sale_date_time,
                start_date_time: data.start_date_time,
                end_date_time: data.end_date_time,
            }),
    {
        let event = map_event(data);
        let id = self.event_repository.add(event);
        CreateEventResult { id }
    }

    /// The details of the first stored events, a thousand at most.
    pub fn list(&self) -> (r: Vec<EventDetails>)
        ensures
            r@.len() == if self.events().len() <= EVENT_LIST_LIMIT {
                self.events().len()
            } else {
                EVENT_LIST_LIMIT as nat
            },
            forall|i: int| 0 <= i < r@.len() ==> (#[trigger] r@[i]).describes(self.events()[i]),
    {
        let events = self.event_repository.list();
        let mut details: Vec<EventDetails> = Vec::new();
        let mut i: usize = 0;
        while i < events.len()
            invariant
                i <= events@.len(),
                details@.len() == i,
                forall|k: int| 0 <= k < i ==> (#[trigger] details@[k]).describes(events@[k]),
            decreases events@.len() - i,
        {
            details.push(EventDetails::from(&events[i]));
            i += 1;
        }
        details
    }

    /// The details of the event with the identifier that `event_id` spells,
    /// if one is stored. Fails where `event_id` spells no identifier.
    pub fn get_event(&self, event_id: &str) -> (r: Result<Option<EventDetails>, ObjectIdError>)
        ensures
            match parsed_object_id(event_id@) {
                None => r is Err,
                Some(id) => match event_with(self.events(), id) {
                    None => r == Ok::<Option<EventDetails>, ObjectIdError>(None),
                    Some(event) => r matches Ok(Some(details)) && details.describes(event),
                },
            },
    {
        match self.event_repository.get_event(event_id) {
            Ok(Some(event)) => Ok(Some(EventDetails::from(&event))),
            Ok(None) => Ok(None),
            Err(e) => Err(e),
        }
    }
}

} // verus!
