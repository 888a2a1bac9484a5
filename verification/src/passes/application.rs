//! The pass service: it assembles the claims of a pass from the order line
//! of a purchased unit, and accepts each pass once.
use vstd::prelude::*;
use vstd::string::StrSliceExecFns;
use crate::helpers::str_eq;
use crate::object_id::{parsed_object_id, ObjectId};
use crate::orders::application::{shows_order, OrderService};
use crate::orders::data_transfer_objects::{
    OrderTransaction, OrderTransactionItem, OrderTransactionItemInventory,
};
use crate::orders::persistence::order_with;
use crate::passes::data_models::{Pass, PassVerification};
use crate::passes::errors::{PassErrors, MALFORMED_IDENTIFIER_MESSAGE};
use crate::passes::persistence::{is_verified, InMemoryPassVerificationRepository};

verus! {

/// How long a pass is valid, in seconds.
pub const PASS_VALIDITY_SECONDS: u64 = 3600;

/// The position of the first hyphen of a text; its length where it has
/// none.
pub open spec fn first_hyphen(text: Seq<char>) -> int
    decreases text.len(),
{
    if text.len() == 0 {
        0
    } else if text[0] == '-' {
        0
    } else {
        1 + first_hyphen(text.drop_first())
    }
}

/// The part of the identifier of an order line that names its order
/// transaction: what stands before the first hyphen.
pub open spec fn order_transaction_part(text: Seq<char>) -> Seq<char> {
    text.take(first_hyphen(text))
}

/// The first of `inventories` with the identifier `id`.
pub open spec fn first_with_id(inventories: Seq<OrderTransactionItemInventory>,
    id: Seq<char>) -> Option<
    OrderTransactionItemInventory,
>
    decreases inventories.len(),
{
    if inventories.len() == 0 {
        None
    } else if inventories[0].id@ == id {
        Some(inventories[0])
    } else {
        first_with_id(inventories.drop_first(), id)
    }
}

/// The first unit line of `items` with the identifier `id`, the items taken
/// in order.
pub open spec fn find_inventory(items: Seq<OrderTransactionItem>, id: Seq<char>) -> Option<
    OrderTransactionItemInventory,
>
    decreases items.len(),
{
    if items.len() == 0 {
        None
    } else {
        match first_with_id(items[0].inventories@, id) {
            Some(line) => Some(line),
            None => find_inventory(items.drop_first(), id),
        }
    }
}

/// Whether `pass` holds the claims for the order line `line`, issued at
/// `now_seconds`.
pub open spec fn is_pass_for(pass: Pass, line: OrderTransactionItemInventory,
    now_seconds: u64) -> bool {
    &&& pass.sub@ == line.id@
    &&& pass.exp == now_seconds + PASS_VALIDITY_SECONDS
    &&& pass.iat == now_seconds
    &&& pass.nbf == 0
    &&& pass.inventory_id@ == line.inventory_id@
    &&& pass.event_id@ == line.event_id@
    &&& pass.event_name@ == line.name@
}

/// The part of the identifier of an order line that names its order
/// transaction.
pub fn order_transaction_id_of(order_transaction_item_inventory_id: &str) -> (r: String)
    ensures
        r@ == order_transaction_part(order_transaction_item_inventory_id@),
{
    let length = order_transaction_item_inventory_id.unicode_len();
    let mut i: usize = 0;
    while i < length && order_transaction_item_inventory_id.get_char(i) != '-'
        invariant
            i <= length,
            length == order_transaction_item_inventory_id@.len(),
            forall|k: int| 0 <= k < i ==> order_transaction_item_inventory_id@[k] != '-',
        decreases length - i,
    {
        i += 1;
    }
    proof {
        lemma_first_hyphen(order_transaction_item_inventory_id@, i as int);
    }
    let part = order_transaction_item_inventory_id.substring_char(0, i);
    proof {
        assert(part@ =~= order_transaction_part(order_transaction_item_inventory_id@));
    }
    part.to_owned()
}

/// The claims of the pass for an order line, issued at `now_seconds`. There
/// are none where the order transaction has no such line.
pub fn assemble_pass(
    order_transaction_item_inventory_id: &str,
    order_transaction: &OrderTransaction,
    now_seconds: u64,
) -> (r: Option<Pass>)
    requires
        now_seconds + PASS_VALIDITY_SECONDS <= usize::MAX,
    ensures
        match find_inventory(order_transaction.items@, order_transaction_item_inventory_id@) {
            Some(line) => r matches Some(pass) && is_pass_for(pass, line, now_seconds),
            None => r is None,
        },
{
    let mut i: usize = 0;
    proof {
        assert(order_transaction.items@.skip(0) =~= order_transaction.items@);
    }
    while i < order_transaction.items.len()
        invariant
            i <= order_transaction.items@.len(),
            now_seconds + PASS_VALIDITY_SECONDS <= usize::MAX,
            find_inventory(order_transaction.items@, order_transaction_item_inventory_id@)
                == find_inventory(
                order_transaction.items@.skip(i as int),
                order_transaction_item_inventory_id@,
            ),
        decreases order_transaction.items@.len() - i,
    {
        let item = &order_transaction.items[i];
        proof {
            assert(order_transaction.items@.skip(i as int)[0]
                == order_transaction.items@[i as int]);
            assert(order_transaction.items@.skip(i as int).drop_first()
                =~= order_transaction.items@.skip(i + 1));
            assert(item.inventories@.skip(0) =~= item.inventories@);
        }
        let mut j: usize = 0;
        while j < item.inventories.len()
            invariant
                j <= item.inventories@.len(),
                i < order_transaction.items@.len(),
                *item == order_transaction.items@[i as int],
                now_seconds + PASS_VALIDITY_SECONDS <= usize::MAX,
                first_with_id(item.inventories@, order_transaction_item_inventory_id@)
                    == first_with_id(
                    item.inventories@.skip(j as int),
                    order_transaction_item_inventory_id@,
                ),
                find_inventory(order_transaction.items@, order_transaction_item_inventory_id@)
                    == find_inventory(
                    order_transaction.items@.skip(i as int),
                    order_transaction_item_inventory_id@,
                ),
                order_transaction.items@.skip(i as int)[0] == order_transaction.items@[i as int],
            decreases item.inventories@.len() - j,
        {
            let line = &item.inventories[j];
            proof {
                assert(item.inventories@.skip(j as int)[0] == item.inventories@[j as int]);
                assert(item.inventories@.skip(j as int).drop_first() =~= item.inventories@.skip(
                    j + 1,
                ));
            }
            if str_eq(line.id.as_str(), order_transaction_item_inventory_id) {
                return Some(
                    Pass {
                        sub: line.id.clone(),
                        exp: (now_seconds + PASS_VALIDITY_SECONDS) as usize,
                        iat: now_seconds as usize,
                        nbf: 0,
                        inventory_id: line.inventory_id.clone(),
                        event_id: line.event_id.clone(),
                        event_name: line.name.clone(),
                    },
                );
            }
            j += 1;
        }
        i += 1;
    }
    None
}

/// What to record where a pass for the unit `inventory_id` is presented at
/// `now` and `last` is the latest verification of that unit: its first
/// verification, and nothing where the unit has been verified before.
pub fn first_verification(last: &Option<PassVerification>, inventory_id: ObjectId, now: i64) -> (r:
    Option<PassVerification>)
    ensures
        r == match last {
            Some(_) => None,
            None => Some(PassVerification { inventory_id, verification_time: now }),
        },
{
    match last {
        Some(_) => None,
        None => Some(PassVerification { inventory_id, verification_time: now }),
    }
}

/// The pass service. It holds the store of pass verifications.
#[derive(Debug)]
pub struct PassService {
    pub pass_verification_repository: InMemoryPassVerificationRepository,
}

impl PassService {
    /// The stored verifications.
    pub open spec fn verifications(&self) -> Seq<PassVerification> {
        self.pass_verification_repository.verifications@
    }

    pub fn new(pass_verification_repository: InMemoryPassVerificationRepository) -> (r: Self)
        ensures
            r.pass_verification_repository == pass_verification_repository,
    {
        PassService { pass_verification_repository }
    }

    /// The claims of the pass for a purchased unit, named by the identifier
    /// of its order line, issued at `now_seconds`. There are none where the
    /// order transaction is not stored or has no such line.
    pub fn get_pass(
        &self,
        order_service: &OrderService,
        order_transaction_item_inventory_id: String,
        now_seconds: u64,
    ) -> (r: Option<Pass>)
        requires
            now_seconds + PASS_VALIDITY_SECONDS <= usize::MAX,
        ensures
            match parsed_object_id(order_transaction_part(order_transaction_item_inventory_id@)) {
                None => r is None,
                Some(id) => match order_with(order_service.orders(), id) {
                    None => r is None,
                    Some(order) => exists|shown: OrderTransaction|
                        #[trigger] shows_order(shown, order) && match find_inventory(
                            shown.items@,
                            order_transaction_item_inventory_id@,
                        ) {
                            Some(line) => r matches Some(pass) && is_pass_for(
                                pass,
                                line,
                                now_seconds,
                            ),
                            None => r is None,
                        },
                },
            },
    {
        let order_transaction_id = order_transaction_id_of(
            order_transaction_item_inventory_id.as_str(),
        );
        let order_transaction = match order_service.get_order_transactions(order_transaction_id) {
            Some(order_transaction) => order_transaction,
            None => {
                return None;
            },
        };
        let pass = assemble_pass(
            order_transaction_item_inventory_id.as_str(),
            &order_transaction,
            now_seconds,
        );
        proof {
            let id = parsed_object_id(
                order_transaction_part(order_transaction_item_inventory_id@),
            ).unwrap();
            let order = order_with(order_service.orders(), id).unwrap();
            assert(shows_order(order_transaction, order));
        }
        pass
    }

    /// Accepts the pass with the given claims at `now`, once: a pass for a
    /// unit that has been verified before is turned down, any other is
    /// recorded as verified. Fails where the claims name no unit.
    pub fn verify_pass(&mut self, claims: &Pass, now: i64) -> (r: Result<bool, PassErrors>)
        ensures
            match parsed_object_id(claims.inventory_id@) {
                None => r matches Err(e) && e.message() == MALFORMED_IDENTIFIER_MESSAGE@ && final(
                    self).verifications() == old(self).verifications(),
                Some(inventory_id) => if is_verified(old(self).verifications(), inventory_id) {
                    r == Ok::<bool, PassErrors>(false) && final(self).verifications() == old(
                        self).verifications()
                } else {
                    r == Ok::<bool, PassErrors>(true) && final(self).verifications() == old(
                        self).verifications().push(
                        PassVerification { inventory_id, verification_time: now },
                    )
                },
            },
    {
        let inventory_id = match ObjectId::parse_str(claims.inventory_id.as_str()) {
            Ok(inventory_id) => inventory_id,
            Err(_) => {
                return Err(PassErrors::Unknown(MALFORMED_IDENTIFIER_MESSAGE.to_owned()));
            },
        };
        let last = self.pass_verification_repository.get_last_pass_verification(inventory_id);
        match first_verification(&last, inventory_id, now) {
            None => Ok(false),
            Some(pass_verification) => {
                self.pass_verification_repository.save_pass_verification(&pass_verification);
                Ok(true)
            },
        }
    }
}

/// The first hyphen stands where no character before it is a hyphen and the
/// text ends or a hyphen stands.
pub proof fn lemma_first_hyphen(text: Seq<char>, i: int)
    requires
        0 <= i <= text.len(),
        forall|k: int| 0 <= k < i ==> text[k] != '-',
        i == text.len() || text[i] == '-',
    ensures
        first_hyphen(text) == i,
    decreases text.len(),
{
    if text.len() > 0 && i > 0 {
        let rest = text.drop_first();
        assert forall|k: int| 0 <= k < i - 1 implies rest[k] != '-' by {
            assert(rest[k] == text[k + 1]);
        }
        lemma_first_hyphen(rest, i - 1);
    }
}

} // verus!
