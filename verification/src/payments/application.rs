//! The payment service: it records the checkout that a provider opened for
//! a basket, marks a payment as paid, and shows the payments of a basket.
use vstd::prelude::*;
use crate::baskets::data_transfer_objects::Basket;
use crate::object_id::{encode_hex, parsed_object_id, ObjectId};
use crate::payments::constants::{
    CURRENCY, PAYMENT_STATUS_PAID, PAYMENT_STATUS_PENDING, PAYMENT_TYPE_CHECKOUT,
};
use crate::payments::data_models::{CheckoutData, Payment};
use crate::payments::data_transfer_objects::{CheckoutResponse, PaymentView};
use crate::payments::errors::PaymentErrors;
use crate::payments::persistence::{
    payment_for_checkout, payments_for_basket, with_update,
    InMemoryPaymentRepository,
};

verus! {

/// Whether `shown` shows the payment `payment`.
pub open spec fn shows(shown: PaymentView, payment: Payment) -> bool {
    &&& payment.id matches Some(id) && shown.id@ == encode_hex(id@)
    &&& payment.basket_id matches Some(basket_id) && shown.basket_id@ == encode_hex(basket_id@)
    &&& shown.status@ == payment.status@
    &&& shown.created_at == payment.created_at
    &&& shown.amount == payment.amount
    &&& shown.currency@ == payment.currency@
    &&& shown.payment_type@ == payment.payment_type@
    &&& shown.concurrency_stamp@ == payment.concurrency_stamp@
    &&& shown.provider@ == payment.provider@
}

/// A payment as it is shown. Fails where the payment has no identifier or
/// no basket.
pub fn map_payment_to_payment_view(payment: &Payment) -> (r: Result<PaymentView, PaymentErrors>)
    ensures
        r is Ok <==> payment.id is Some && payment.basket_id is Some,
        r matches Ok(shown) ==> shows(shown, *payment),
        r matches Err(e) ==> e == PaymentErrors::MissingId,
{
    let id = match payment.id {
        Some(id) => id.to_hex(),
        None => {
            return Err(PaymentErrors::MissingId);
        },
    };
    let basket_id = match payment.basket_id {
        Some(basket_id) => basket_id.to_hex(),
        None => {
            return Err(PaymentErrors::MissingId);
        },
    };
    Ok(
        PaymentView {
            id,
            status: payment.status.clone(),
            created_at: payment.created_at,
            amount: payment.amount,
            currency: payment.currency.clone(),
            payment_type: payment.payment_type.clone(),
            basket_id,
            concurrency_stamp: payment.concurrency_stamp.clone(),
            provider: payment.provider.clone(),
        },
    )
}

/// Whether `payment` is the pending payment for the checkout that
/// `provider` opened for `basket` at `now`.
pub open spec fn is_checkout_payment(
    payment: Payment,
    basket: Basket,
    provider: Seq<char>,
    checkout_data: CheckoutData,
    now: i64,
) -> bool {
    &&& payment.basket_id == parsed_object_id(basket.id@)
    &&& payment.basket_id is Some
    &&& payment.amount == basket.price
    &&& payment.currency@ == CURRENCY@
    &&& payment.provider@ == provider
    &&& payment.status@ == PAYMENT_STATUS_PENDING@
    &&& payment.created_at == now
    &&& payment.payment_type@ == PAYMENT_TYPE_CHECKOUT@
    &&& payment.checkout_data == Some(checkout_data)
}

/// The pending payment, not stored yet, for the checkout that `provider`
/// opened for `basket` at `now`: it is for the price of the basket. Fails
/// where the identifier of the basket is malformed.
pub fn checkout_payment(
    basket: &Basket,
    provider: String,
    checkout_data: CheckoutData,
    now: i64,
) -> (r: Result<Payment, PaymentErrors>)
    ensures
        match parsed_object_id(basket.id@) {
            None => r matches Err(e) && e == PaymentErrors::MalformedId,
            Some(_) => r matches Ok(payment) && payment.id is None && is_checkout_payment(
                payment,
                *basket,
                provider@,
                checkout_data,
                now,
            ),
        },
{
    let basket_id = match ObjectId::parse_str(basket.id.as_str()) {
        Ok(basket_id) => basket_id,
        Err(_) => {
            return Err(PaymentErrors::MalformedId);
        },
    };
    Ok(
        Payment::new(
            Some(basket_id),
            basket.price,
            CURRENCY.to_owned(),
            provider,
            PAYMENT_STATUS_PENDING.to_owned(),
            now,
            PAYMENT_TYPE_CHECKOUT.to_owned(),
            Some(checkout_data),
        ),
    )
}

/// Marks a payment as paid, leaving everything else of it as it is.
pub fn mark_paid(payment: &mut Payment)
    ensures
        final(payment).status@ == PAYMENT_STATUS_PAID@,
        *final(payment) == (Payment { status: final(payment).status, ..*old(payment) }),
{
    payment.status = PAYMENT_STATUS_PAID.to_owned();
}

/// The payment service. It holds the store of payments.
#[derive(Debug)]
pub struct PaymentService {
    pub payment_repository: InMemoryPaymentRepository,
}

impl PaymentService {
    /// The stored payments.
    pub open spec fn payments(&self) -> Seq<Payment> {
        self.payment_repository.payments@
    }

    pub fn new(payment_repository: InMemoryPaymentRepository) -> (r: Self)
        ensures
            r.payment_repository == payment_repository,
    {
        PaymentService { payment_repository }
    }

    /// Records, at `now`, the checkout that a provider has opened for a
    /// basket: stores a pending payment for the price of the basket and
    /// returns where to pay. Fails, storing nothing, where the identifier of
    /// the basket is malformed.
    pub fn record_checkout(
        &mut self,
        basket: &Basket,
        provider: String,
        checkout_data: CheckoutData,
        now: i64,
    ) -> (r: Result<CheckoutResponse, PaymentErrors>)
        ensures
            match parsed_object_id(basket.id@) {
                None => r matches Err(e) && e == PaymentErrors::MalformedId && final(self).payments(
                    ) == old(self).payments(),
                Some(_) => {
                    &&& r matches Ok(response) && response.checkout_id@
                        == checkout_data.checkout_id@ && response.checkout_url@
                        == checkout_data.checkout_url@
                    &&& final(self).payments().len() == old(self).payments().len() + 1
                    &&& final(self).payments().drop_last() == old(self).payments()
                    &&& final(self).payments().last().id is Some
                    &&& is_checkout_payment(
                        final(self).payments().last(),
                        *basket,
                        provider@,
                        checkout_data,
                        now,
                    )
                },
            },
    {
        let response = CheckoutResponse::new(
            checkout_data.checkout_id.clone(),
            checkout_data.checkout_url.clone(),
        );
        let payment = match checkout_payment(basket, provider, checkout_data, now) {
            Ok(payment) => payment,
            Err(e) => {
                return Err(e);
            },
        };
        self.payment_repository.save(&payment);
        Ok(response)
    }

    /// Marks the payment of a checkout as paid, under a new stamp. Fails,
    /// writing nothing, where no payment belongs to the checkout and where
    /// the payment has no identifier.
    pub fn mark_payment_as_paid(&mut self, checkout_id: &str) -> (r: Result<(), PaymentErrors>)
        ensures
            match payment_for_checkout(old(self).payments(), checkout_id@) {
                None => r matches Err(e) && e == PaymentErrors::PaymentNotFound && final(
                    self).payments() == old(self).payments(),
                Some(payment) => if payment.id is None {
                    r matches Err(e) && e == PaymentErrors::MissingId && final(self).payments()
                        == old(self).payments()
                } else {
                    r is Ok && exists|paid: Payment|
                        {
                            &&& paid.status@ == PAYMENT_STATUS_PAID@
                            &&& paid == (Payment {
                                status: paid.status,
                                concurrency_stamp: paid.concurrency_stamp,
                                ..payment
                            })
                            &&& final(self).payments() == #[trigger] with_update(
                                old(self).payments(),
                                paid,
                                payment.concurrency_stamp@,
                            )
                        }
                },
            },
    {
        let mut payment = match self.payment_repository.find_one_by_checkout_id(checkout_id) {
            Some(payment) => payment,
            None => {
                return Err(PaymentErrors::PaymentNotFound);
            },
        };
        let ghost found = payment;
        proof {
            lemma_payment_for_checkout_stored(self.payments(), checkout_id@);
        }
        mark_paid(&mut payment);
        let ghost asked = payment;
        let r = self.payment_repository.update(&mut payment);
        proof {
            if found.id is Some {
                let i = choose|i: int|
                    0 <= i < old(self).payments().len() && old(self).payments()[i] == found;
                assert(crate::payments::persistence::accepts_update(
                    old(self).payments()[i],
                    asked,
                ));
            }
            if r is Ok {
                assert(payment == (Payment {
                    status: payment.status,
                    concurrency_stamp: payment.concurrency_stamp,
                    ..found
                }));
                assert(self.payments() == with_update(
                    old(self).payments(),
                    payment,
                    found.concurrency_stamp@,
                ));
            }
        }
        r
    }

    /// Shows the stored payments for the basket whose identifier the text
    /// spells. Fails where it spells no identifier.
    pub fn get_basket_payments(&self, basket_id: &str) -> (r: Result<
        Vec<PaymentView>,
        PaymentErrors,
    >)
        ensures
            match parsed_object_id(basket_id@) {
                None => r matches Err(e) && e == PaymentErrors::MalformedId,
                Some(id) => {
                    let found = payments_for_basket(self.payments(), id);
                    match r {
                        Ok(shown) => shown@.len() == found.len() && forall|k: int|
                            0 <= k < shown@.len() ==> shows(#[trigger] shown@[k], found[k]),
                        Err(e) => e == PaymentErrors::MissingId && exists|k: int|
                            0 <= k < found.len() && (#[trigger] found[k]).id is None,
                    }
                },
            },
    {
        let payments = match self.payment_repository.find_by_basket_id(basket_id) {
            Ok(payments) => payments,
            Err(e) => {
                return Err(e);
            },
        };
        proof {
            lemma_payments_for_basket(
                self.payments(),
                parsed_object_id(basket_id@).unwrap(),
            );
        }
        let mut payment_views: Vec<PaymentView> = Vec::new();
        let mut i: usize = 0;
        while i < payments.len()
            invariant
                i <= payments@.len(),
                payment_views@.len() == i,
                parsed_object_id(basket_id@) is Some,
                payments@ == payments_for_basket(
                    self.payments(),
                    parsed_object_id(basket_id@).unwrap(),
                ),
                forall|k: int| 0 <= k < payments@.len() ==> (
                    #[trigger] payments@[k]).basket_id is Some,
                forall|k: int| 0 <= k < i ==> shows(#[trigger] payment_views@[k], payments@[k]),
            decreases payments@.len() - i,
        {
            match map_payment_to_payment_view(&payments[i]) {
                Ok(shown) => {
                    payment_views.push(shown);
                },
                Err(e) => {
                    assert(payments@[i as int].id is None);
                    return Err(e);
                },
            }
            i += 1;
        }
        Ok(payment_views)
    }
}

/// The payment found for a checkout is a stored payment.
pub proof fn lemma_payment_for_checkout_stored(payments: Seq<Payment>, checkout_id: Seq<char>)
    ensures
        payment_for_checkout(payments, checkout_id) matches Some(payment) ==> exists|i: int|
            0 <= i < payments.len() && payments[i] == payment,
    decreases payments.len(),
{
    if payments.len() > 0 {
        if crate::payments::persistence::is_for_checkout(payments[0], checkout_id) {
            assert(payments[0] == payment_for_checkout(payments, checkout_id).unwrap());
        } else {
            lemma_payment_for_checkout_stored(payments.drop_first(), checkout_id);
            if payment_for_checkout(payments, checkout_id) is Some {
                let payment = payment_for_checkout(payments, checkout_id).unwrap();
                let i = choose|i: int|
                    0 <= i < payments.drop_first().len() && payments.drop_first()[i] == payment;
                assert(payments[i + 1] == payment);
            }
        }
    }
}

/// The payments found for a basket are payments for that basket.
pub proof fn lemma_payments_for_basket(payments: Seq<Payment>, basket_id: ObjectId)
    ensures
        forall|k: int|
            0 <= k < payments_for_basket(payments, basket_id).len() ==> (
            #[trigger] payments_for_basket(payments, basket_id)[k]).basket_id == Some(basket_id),
    decreases payments.len(),
{
    if payments.len() > 0 {
        lemma_payments_for_basket(payments.drop_last(), basket_id);
    }
}

} // verus!
