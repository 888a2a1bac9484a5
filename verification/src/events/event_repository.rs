//! The store of events.
use vstd::prelude::*;
use crate::events::data_models::Event;
use crate::object_id::{encode_hex, parsed_object_id, ObjectId, ObjectIdError};

verus! {

/// The largest number of events that one listing returns.
pub const EVENT_LIST_LIMIT: usize = 1000;

/// The first event of `events` with the identifier `id`.
pub open spec fn event_with(events: Seq<Event>, id: ObjectId) -> Option<Event>
    decreases events.len(),
{
    if events.len() == 0 {
        None
    } else if events[0].id == Some(id) {
        Some(events[0])
    } else {
        event_with(events.drop_first(), id)
    }
}

/// The events of the store, in insertion order.
#[derive(Debug)]
pub struct InMemoryEventRepository {
    pub events: Vec<Event>,
}

impl InMemoryEventRepository {
    pub fn new() -> (r: Self)
        ensures
            r.events@ == Seq::<Event>::empty(),
    {
        InMemoryEventRepository { events: Vec::new() }
    }

    /// Stores an event and returns the text form of its identifier. An event
    /// that comes without an identifier is given a newly generated one.
    pub fn add(&mut self, event: Event) -> (r: String)
        ensures
            final(self).events@.len() == old(self).events@.len() + 1,
            final(self).events@.drop_last() == old(self).events@,
            final(self).events@.last().id matches Some(id) && r@ == encode_hex(id@) && (event.id
                is Some ==> event.id == Some(id)),
            final(self).events@.last() == (Event { id: final(self).events@.last().id, ..event }),
    {
        let id = match event.id {
            Some(id) => id,
            None => ObjectId::new(),
        };
        let ghost before = self.events@;
        self.events.push(
            Event {
                id: Some(id),
                name: event.name,
                price: event.price,
                start_sale_date_time: event.start_sale_date_time,
                end_sale_date_time: event.end_sale_date_time,
                start_date_time: event.start_date_time,
                end_date_time: event.end_date_time,
            },
        );
        proof {
            assert(self.events@.drop_last() =~= before);
        }
        id.to_hex()
    }

    /// The first events of the store, a thousand at most.
    pub fn list(&self) -> (r: Vec<Event>)
        ensures
            r@ == if self.events@.len() <= EVENT_LIST_LIMIT {
                self.events@
            } else {
                self.events@.take(EVENT_LIST_LIMIT as int)
            },
    {
        let mut listed: Vec<Event> = Vec::new();
        let mut i: usize = 0;
        while i < self.events.len() && i < EVENT_LIST_LIMIT
            invariant
                i <= self.events@.len(),
                i <= EVENT_LIST_LIMIT,
                listed@ == self.events@.take(i as int),
            decreases self.events@.len() - i,
        {
            listed.push(self.events[i].clone());
            assert(listed@ =~= self.events@.take(i + 1));
            i += 1;
        }
        proof {
            if self.events@.len() <= EVENT_LIST_LIMIT {
                assert(self.events@.take(i as int) =~= self.events@);
            }
        }
        listed
    }

    /// The event with the identifier that `event_id` spells, if one is
    /// stored. Fails where `event_id` spells no identifier.
    pub fn get_event(&self, event_id: &str) -> (r: Result<Option<Event>, ObjectIdError>)
        ensures
            match parsed_object_id(event_id@) {
                None => r is Err,
                Some(id) => r == Ok::<Option<Event>, ObjectIdError>(event_with(self.events@, id)),
            },
    {
        let id = match ObjectId::parse_str(event_id) {
            Ok(id) => id,
            Err(e) => {
                return Err(e);
            },
        };
        let mut i: usize = 0;
        proof {
            assert(self.events@.skip(0) =~= self.events@);
        }
        while i < self.events.len()
            invariant
                i <= self.events@.len(),
                parsed_object_id(event_id@) == Some(id),
                event_with(self.events@, id) == event_with(self.events@.skip(i as int), id),
            decreases self.events@.len() - i,
        {
            let found = match self.events[i].id {
                Some(other) => other == id,
                None => false,
            };
            proof {
                assert(self.events@.skip(i as int)[0] == self.events@[i as int]);
                assert(self.events@.skip(i as int).drop_first() =~= self.events@.skip(i + 1));
            }
            if found {
                return Ok(Some(self.events[i].clone()));
            }
            i += 1;
        }
        Ok(None)
    }
}

} // verus!
