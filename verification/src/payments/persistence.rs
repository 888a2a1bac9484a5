//! The store of payments. An update is accepted only while the stored
//! payment carries the stamp that the update was made with, and an accepted
//! update replaces the stamp.
use vstd::prelude::*;
use crate::object_id::{encode_hex, parsed_object_id, ObjectId};
use crate::payments::data_models::Payment;
use crate::payments::errors::PaymentErrors;

verus! {

/// Whether `payment` belongs to the checkout `checkout_id`.
pub open spec fn is_for_checkout(payment: Payment, checkout_id: Seq<char>) -> bool {
    payment.checkout_data matches Some(checkout_data) && checkout_data.checkout_id@ == checkout_id
}

/// The first payment of `payments` that belongs to the checkout
/// `checkout_id`.
pub open spec fn payment_for_checkout(payments: Seq<Payment>, checkout_id: Seq<char>) -> Option<
    Payment,
>
    decreases payments.len(),
{
    if payments.len() == 0 {
        None
    } else if is_for_checkout(payments[0], checkout_id) {
        Some(payments[0])
    } else {
        payment_for_checkout(payments.drop_first(), checkout_id)
    }
}

/// The payments of `payments` for the basket `basket_id`, in order.
pub open spec fn payments_for_basket(payments: Seq<Payment>, basket_id: ObjectId) -> Seq<Payment>
    decreases payments.len(),
{
    if payments.len() == 0 {
        Seq::empty()
    } else {
        let before = payments_for_basket(payments.drop_last(), basket_id);
        if payments.last().basket_id == Some(basket_id) {
            before.push(payments.last())
        } else {
            before
        }
    }
}

/// Whether an update made with `payment` is accepted by `stored`: the
/// identifier and the stamp agree.
pub open spec fn accepts_update(stored: Payment, payment: Payment) -> bool {
    payment.id is Some && stored.id == payment.id && stored.concurrency_stamp@
        == payment.concurrency_stamp@
}

/// `payments` after an update with `updated`, made with the stamp `stamp`.
pub open spec fn with_update(payments: Seq<Payment>, updated: Payment, stamp: Seq<char>) -> Seq<
    Payment,
> {
    Seq::new(
        payments.len(),
        |i: int|
            if payments[i].id == updated.id && payments[i].concurrency_stamp@ == stamp {
                updated
            } else {
                payments[i]
            },
    )
}

/// The payments of the store, in insertion order.
#[derive(Debug)]
pub struct InMemoryPaymentRepository {
    pub payments: Vec<Payment>,
}

impl InMemoryPaymentRepository {
    pub fn new() -> (r: Self)
        ensures
            r.payments@ == Seq::<Payment>::empty(),
    {
        InMemoryPaymentRepository { payments: Vec::new() }
    }

    /// Stores a payment and returns the text form of its identifier. A
    /// payment that comes without an identifier is given a newly generated
    /// one.
    pub fn save(&mut self, payment: &Payment) -> (r: String)
        ensures
            final(self).payments@.len() == old(self).payments@.len() + 1,
            final(self).payments@.drop_last() == old(self).payments@,
            final(self).payments@.last().id matches Some(id) && r@ == encode_hex(id@) && (
            payment.id is Some ==> payment.id == Some(id)),
            final(self).payments@.last() == (Payment {
                id: final(self).payments@.last().id,
                ..*payment
            }),
    {
        let id = match payment.id {
            Some(id) => id,
            None => ObjectId::new(),
        };
        let ghost before = self.payments@;
        let copy = payment.clone();
        self.payments.push(
            Payment {
                id: Some(id),
                concurrency_stamp: copy.concurrency_stamp,
                basket_id: copy.basket_id,
                amount: copy.amount,
                currency: copy.currency,
                provider: copy.provider,
                status: copy.status,
                created_at: copy.created_at,
                payment_type: copy.payment_type,
                checkout_data: copy.checkout_data,
            },
        );
        proof {
            assert(self.payments@.drop_last() =~= before);
        }
        id.to_hex()
    }

    /// Writes `payment` over the stored payment of the same identifier,
    /// under the stamp `stamp`, provided that the stored payment carries the
    /// stamp that `payment` came with. Fails, writing nothing, where the
    /// payment has no identifier and where no stored payment accepts the
    /// update.
    pub fn update_with_stamp(&mut self, payment: &mut Payment, stamp: String) -> (r: Result<
        (),
        PaymentErrors,
    >)
        ensures
            match r {
                Ok(()) => {
                    &&& exists|i: int|
                        0 <= i < old(self).payments@.len() && accepts_update(
                            #[trigger] old(self).payments@[i],
                            *old(payment),
                        )
                    &&& *final(payment) == (Payment { concurrency_stamp: stamp, ..*old(payment) })
                    &&& final(self).payments@ == with_update(
                        old(self).payments@,
                        *final(payment),
                        old(payment).concurrency_stamp@,
                    )
                },
                Err(e) => {
                    &&& final(self).payments@ == old(self).payments@
                    &&& forall|i: int|
                        0 <= i < old(self).payments@.len() ==> !accepts_update(
                            #[trigger] old(self).payments@[i],
                            *old(payment),
                        )
                    &&& e == if old(payment).id is None {
                        PaymentErrors::MissingId
                    } else {
                        PaymentErrors::UpdateFailed
                    }
                    &&& final(payment).id == old(payment).id
                },
            },
    {
        let id = match payment.id {
            Some(id) => id,
            None => {
                return Err(PaymentErrors::MissingId);
            },
        };
        let ghost before = self.payments@;
        let guard = payment.concurrency_stamp.clone();
        let mut accepted = false;
        let mut c: usize = 0;
        while c < self.payments.len()
            invariant
                c <= self.payments@.len(),
                self.payments@ == before,
                payment.id == Some(id),
                *payment == *old(payment),
                guard == payment.concurrency_stamp,
                accepted == (exists|i: int|
                    0 <= i < c && accepts_update(#[trigger] before[i], *payment)),
            decreases self.payments@.len() - c,
        {
            let same_id = match self.payments[c].id {
                Some(other) => other == id,
                None => false,
            };
            if same_id && self.payments[c].concurrency_stamp == guard {
                accepted = true;
            }
            c += 1;
        }
        if !accepted {
            return Err(PaymentErrors::UpdateFailed);
        }
        payment.concurrency_stamp = stamp;
        let mut i: usize = 0;
        while i < self.payments.len()
            invariant
                i <= before.len(),
                self.payments@.len() == before.len(),
                payment.id == Some(id),
                *payment == (Payment { concurrency_stamp: stamp, ..*old(payment) }),
                guard == old(payment).concurrency_stamp,
                forall|t: int|
                    0 <= t < i ==> #[trigger] self.payments@[t] == with_update(
                        before,
                        *payment,
                        guard@,
                    )[t],
                forall|t: int| i <= t < before.len() ==> #[trigger] self.payments@[t] == before[t],
            decreases before.len() - i,
        {
            let same_id = match self.payments[i].id {
                Some(other) => other == id,
                None => false,
            };
            if same_id && self.payments[i].concurrency_stamp == guard {
                self.payments.set(i, payment.clone());
            }
            i += 1;
        }
        proof {
            assert(self.payments@ =~= with_update(before, *payment, guard@));
        }
        Ok(())
    }

    /// Writes `payment` over the stored payment of the same identifier,
    /// under a newly generated stamp, provided that the stored payment
    /// carries the stamp that `payment` came with. Fails, writing nothing,
    /// where the payment has no identifier and where no stored payment
    /// accepts the update.
    pub fn update(&mut self, payment: &mut Payment) -> (r: Result<(), PaymentErrors>)
        ensures
            match r {
                Ok(()) => {
                    &&& exists|i: int|
                        0 <= i < old(self).payments@.len() && accepts_update(
                            #[trigger] old(self).payments@[i],
                            *old(payment),
                        )
                    &&& *final(payment) == (Payment {
                        concurrency_stamp: final(payment).concurrency_stamp,
                        ..*old(payment)
                    })
                    &&& final(self).payments@ == with_update(
                        old(self).payments@,
                        *final(payment),
                        old(payment).concurrency_stamp@,
                    )
                },
                Err(e) => {
                    &&& final(self).payments@ == old(self).payments@
                    &&& forall|i: int|
                        0 <= i < old(self).payments@.len() ==> !accepts_update(
                            #[trigger] old(self).payments@[i],
                            *old(payment),
                        )
                    &&& e == if old(payment).id is None {
                        PaymentErrors::MissingId
                    } else {
                        PaymentErrors::UpdateFailed
                    }
                },
            },
    {
        self.update_with_stamp(payment, ObjectId::new().to_hex())
    }

    /// The first stored payment that belongs to the checkout.
    pub fn find_one_by_checkout_id(&self, checkout_id: &str) -> (r: Option<Payment>)
        ensures
            r == payment_for_checkout(self.payments@, checkout_id@),
    {
        let mut i: usize = 0;
        proof {
            assert(self.payments@.skip(0) =~= self.payments@);
        }
        while i < self.payments.len()
            invariant
                i <= self.payments@.len(),
                payment_for_checkout(self.payments@, checkout_id@) == payment_for_checkout(
                    self.payments@.skip(i as int),
                    checkout_id@,
                ),
            decreases self.payments@.len() - i,
        {
            proof {
                assert(self.payments@.skip(i as int)[0] == self.payments@[i as int]);
                assert(self.payments@.skip(i as int).drop_first() =~= self.payments@.skip(i + 1));
            }
            let found = match &self.payments[i].checkout_data {
                Some(checkout_data) => crate::helpers::str_eq(
                    checkout_data.checkout_id.as_str(),
                    checkout_id,
                ),
                None => false,
            };
            if found {
                return Some(self.payments[i].clone());
            }
            i += 1;
        }
        None
    }

    /// The stored payments for the basket whose identifier `basket_id`
    /// spells. Fails where it spells no identifier.
    pub fn find_by_basket_id(&self, basket_id: &str) -> (r: Result<Vec<Payment>, PaymentErrors>)
        ensures
            match parsed_object_id(basket_id@) {
                None => r == Err::<Vec<Payment>, PaymentErrors>(PaymentErrors::MalformedId),
                Some(id) => r matches Ok(found) && found@ == payments_for_basket(self.payments@,
                    id),
            },
    {
        let id = match ObjectId::parse_str(basket_id) {
            Ok(id) => id,
            Err(_) => {
                return Err(PaymentErrors::MalformedId);
            },
        };
        let mut found: Vec<Payment> = Vec::new();
        let mut i: usize = 0;
        while i < self.payments.len()
            invariant
                i <= self.payments@.len(),
                parsed_object_id(basket_id@) == Some(id),
                found@ == payments_for_basket(self.payments@.take(i as int), id),
            decreases self.payments@.len() - i,
        {
            proof {
                assert(self.payments@.take(i + 1).drop_last() =~= self.payments@.take(i as int));
            }
            let same = match self.payments[i].basket_id {
                Some(other) => other == id,
                None => false,
            };
            if same {
                found.push(self.payments[i].clone());
            }
            i += 1;
        }
        proof {
            assert(self.payments@.take(i as int) =~= self.payments@);
        }
        Ok(found)
    }
}

} // verus!
