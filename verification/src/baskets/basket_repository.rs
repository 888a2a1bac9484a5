//! The store of baskets.
use vstd::prelude::*;
use crate::baskets::data_models::Basket;
use crate::object_id::{encode_hex, parsed_object_id, ObjectId, ObjectIdError};

verus! {

/// The baskets of the store, in insertion order.
#[derive(Debug)]
pub struct InMemoryBasketRepository {
    pub baskets: Vec<Basket>,
}

impl InMemoryBasketRepository {
    pub fn new() -> (r: Self)
        ensures
            r.baskets@ == Seq::<Basket>::empty(),
    {
        InMemoryBasketRepository { baskets: Vec::new() }
    }

    /// Stores a basket and returns the text form of its identifier. A basket
    /// that comes without an identifier is given a newly generated one.
    pub fn add(&mut self, basket: Basket) -> (r: Option<String>)
        ensures
            final(self).baskets@.len() == old(self).baskets@.len() + 1,
            final(self).baskets@.drop_last() == old(self).baskets@,
            final(self).baskets@.last().valid_until == basket.valid_until,
            final(self).baskets@.last().basket_items == basket.basket_items,
            r matches Some(text) && final(self).baskets@.last().id matches Some(id) && text@
                == encode_hex(id@) && (basket.id is Some ==> basket.id == Some(id)),
    {
        let id = match basket.id {
            Some(id) => id,
            None => ObjectId::new(),
        };
        let ghost before = self.baskets@;
        self.baskets.push(
            Basket { id: Some(id), valid_until: basket.valid_until,
                basket_items: basket.basket_items },
        );
        proof {
            assert(self.baskets@.drop_last() =~= before);
        }
        Some(id.to_hex())
    }

    /// The position of the first basket with the identifier that `id`
    /// spells, if one is stored. Fails where `id` spells no identifier.
    pub fn get(&self, id: &str) -> (r: Result<Option<usize>, ObjectIdError>)
        ensures
            match parsed_object_id(id@) {
                None => r is Err,
                Some(basket_id) => match r {
                    Ok(Some(i)) => i < self.baskets@.len() && self.baskets@[i as int].id == Some(
                        basket_id,
                    ) && forall|j: int|
                        0 <= j < i ==> (#[trigger] self.baskets@[j]).id != Some(basket_id),
                    Ok(None) => forall|j: int|
                        0 <= j < self.baskets@.len() ==> (#[trigger] self.baskets@[j]).id != Some(
                            basket_id,
                        ),
                    Err(_) => false,
                },
            },
    {
        let basket_id = match ObjectId::parse_str(id) {
            Ok(basket_id) => basket_id,
            Err(e) => {
                return Err(e);
            },
        };
        let mut i: usize = 0;
        while i < self.baskets.len()
            invariant
                i <= self.baskets@.len(),
                parsed_object_id(id@) == Some(basket_id),
                forall|j: int| 0 <= j < i ==> (#[trigger] self.baskets@[j]).id != Some(basket_id),
            decreases self.baskets@.len() - i,
        {
            let found = match self.baskets[i].id {
                Some(other) => other == basket_id,
                None => false,
            };
            if found {
                return Ok(Some(i));
            }
            i += 1;
        }
        Ok(None)
    }
}

} // verus!
