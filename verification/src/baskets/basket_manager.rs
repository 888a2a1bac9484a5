//! The reservation requests of a basket request.
use vstd::prelude::*;
use crate::baskets::data_transfer_objects::AddBasketItemRequest;
use crate::inventories::data_transfer_objects::ReserveInventories;

verus! {

/// One reservation request for each item of a basket request: the same
/// event, the same quantity, in the same order.
pub fn generate_reserve_inventory_request(add_basket_item_requests: &Vec<AddBasketItemRequest>) -> (
    r:
    Vec<ReserveInventories>)
    ensures
        r@.len() == add_basket_item_requests@.len(),
        forall|i: int|
            0 <= i < r@.len() ==> #[trigger] r@[i] == (ReserveInventories {
                event_id: add_basket_item_requests@[i].event_id,
                quantity: add_basket_item_requests@[i].quantity,
            }),
{
    crate::baskets::application::generate_reserve_inventory_request(
        add_basket_item_requests.as_slice(),
    )
}

} // verus!
